//! The compiler: from DuckyScript source to the bytes of an inject.bin payload.
use vstd::prelude::*;

use crate::constants::{
    self, builtin_code_of, operator_code_of, reserved_constant_code_of, reserved_variable_code_of,
};
use crate::encoder::{
    self, append_token, dec_to_hex_chars, format_hex_chars, hex_encode_chars, lower_chars,
    parse_hex_byte_chars, strip_all_prefix_chars, swap_hex_chars, upper_chars,
};
use crate::errors::{CompilerError, CompilerResult, CompilerWarning};
use crate::language::{self, KeyboardLayout};
use crate::lexer::{self, TokenType, is_end_rem_block_chars, is_end_string_chars, tokenize_trimmed_chars};
use crate::model::{self, Fault, Model, Outcome};
use crate::parser::ParserState;
use crate::numbers::{self, decimal_chars, parse_hex_chars, parse_i32_chars, parse_unsigned_chars};
use crate::parser::split_syntax_chars;
use crate::preprocessor::{self, join_words_chars, replace_all_chars, Preprocessor};
use crate::text::{
    self, chars_of, contains_str, ends_with_str, eq_chars, eq_str, split_words, starts_with_str,
    string_of, to_vec, trim_chars, trim_start_chars,
};

verus! {

/// The compiler and its state.
pub struct DuckyCompiler {
    pub state: ParserState,
    pub keyboard_layout: KeyboardLayout,
    pub output_buffer: Vec<u8>,
    pub errors: Vec<CompilerError>,
    pub warnings: Vec<CompilerWarning>,
    pub ds3_detected: bool,
    pub default_delay: u32,
    pub delay_override: bool,
    pub current_line: Vec<char>,
    pub current_line_index: usize,
    pub inside_string_block: bool,
    pub inside_stringln_block: bool,
    pub string_block_indentation_level: usize,
    pub preserve_leading_space: bool,
    pub inside_rem_block: bool,
    pub awaiting_future_addr: Vec<Vec<usize>>,
    pub goto_awaiting_label: Vec<(Vec<char>, usize)>,
    pub defining_function: bool,
    pub return_defined: bool,
    pub defining_button: u32,
    pub button_block_stack: Vec<u32>,
    pub previous_line: Vec<char>,
    pub modifier_queue: Vec<Vec<char>>,
    pub last_command: Vec<char>,
}

/// Whether a compiler error is the one a fault stands for, raised at `line`.
pub open spec fn error_is(e: CompilerError, f: Fault, line: usize) -> bool {
    match f {
        Fault::UnknownVariable(n) => e matches CompilerError::UnknownVariable { line: l, name }
            && l == line && name@ == n,
        Fault::EmptyExpression => e matches CompilerError::EmptyExpression { line: l } && l
            == line,
        Fault::MismatchedParentheses(a, b) => e matches CompilerError::MismatchedParentheses {
            line: l,
            left,
            right,
        } && l == line && left == a && right == b,
        Fault::Syntax(msg) => e matches CompilerError::SyntaxError {
            line: l,
            message,
            column: None,
            length: None,
            suggestion: None,
        } && l == line && message@ == msg,
        Fault::DuplicateDefinition(n) => e matches CompilerError::DuplicateDefinition {
            line: l,
            name,
        } && l == line && name@ == n,
        Fault::InvalidHex(v) => e matches CompilerError::InvalidHex { line: l, value } && l
            == line && value@ == v,
        Fault::InvalidExpression(msg) => e matches CompilerError::InvalidExpression {
            line: l,
            message,
        } && l == line && message@ == msg,
    }
}

/// The errors are those there were before, then one per fault, in order.
pub open spec fn errors_match(
    errs: Seq<CompilerError>,
    before: Seq<CompilerError>,
    faults: Seq<(Fault, usize)>,
) -> bool {
    &&& errs.len() == before.len() + faults.len()
    &&& errs.take(before.len() as int) == before
    &&& forall|k: int|
        0 <= k < faults.len() ==> error_is(#[trigger] errs[before.len() + k], faults[k].0, faults[k].1)
}

/// Whether a command's result agrees with its outcome.
pub open spec fn result_is(r: CompilerResult<()>, o: Outcome, line: usize) -> bool {
    match o.1 {
        None => r is Ok,
        Some(f) => r matches Err(e) && error_is(e, f, line),
    }
}

impl DuckyCompiler {
    /// The compiler's state as a model.
    pub open spec fn model(&self) -> Model {
        Model {
            vars: self.state.var_map@,
            values: self.state.values_view(),
            labels: self.state.label_map@,
            blocks: self.state.block_stack@,
            current_block: self.state.current_block,
            next_block: self.state.next_block_address,
            total_regs: self.state.total_eval_registers,
            free_regs: self.state.free_eval_registers,
            lang_pack: self.state.requires_lang_pack,
            layout: self.keyboard_layout@,
            out: self.output_buffer@,
            ds3: self.ds3_detected,
            default_delay: self.default_delay,
            delay_override: self.delay_override,
            line_index: self.current_line_index,
            in_string: self.inside_string_block,
            in_stringln: self.inside_stringln_block,
            indent: self.string_block_indentation_level,
            preserve: self.preserve_leading_space,
            in_rem: self.inside_rem_block,
            awaiting: self.awaiting_future_addr@.map_values(|v: Vec<usize>| v@),
            pending_calls: self.goto_awaiting_label@.map_values(
                |e: (Vec<char>, usize)| (e.0@, e.1),
            ),
            defining_function: self.defining_function,
            return_defined: self.return_defined,
            defining_button: self.defining_button,
            buttons: self.button_block_stack@,
            modifier_queue: text::view_all(self.modifier_queue@),
            last_command: self.last_command@,
            current_line: self.current_line@,
            previous_line: self.previous_line@,
        }
    }

    pub open spec fn wf(&self) -> bool {
        self.state.wf()
    }

    /// `after` is the compiler once a command with outcome `o` has run on
    /// `self` and returned `r`.
    pub open spec fn leads_to(self, after: Self, o: Outcome, r: CompilerResult<()>) -> bool {
        &&& after.wf()
        &&& after.same_frame(&self)
        &&& after.model() == o.0
        &&& result_is(r, o, self.current_line_index)
    }

    /// The errors, warnings and remembered lines are those of `other`.
    pub open spec fn same_frame(&self, other: &Self) -> bool {
        &&& self.errors@ == other.errors@
        &&& self.warnings@ == other.warnings@
        &&& self.current_line_index == other.current_line_index
        &&& self.current_line@ == other.current_line@
        &&& self.previous_line@ == other.previous_line@
    }

    /// Types one key (`inject_character`).
    fn inject_character(&mut self, ch: &[char]) -> (r: CompilerResult<()>)
        requires
            old(self).wf(),
        ensures
            final(self).wf(),
            final(self).same_frame(old(self)),
            final(self).model() == model::inject_key(old(self).model(), ch@).0,
            result_is(r, model::inject_key(old(self).model(), ch@), old(self).current_line_index),
    {
        match self.keyboard_layout.codes_for(ch) {
            None => Ok(()),
            Some(c) => {
                let ghost cv = text::view_all(c@);
                assert(cv.len() == c@.len());
                let mut toks: Vec<Vec<char>> = Vec::new();
                let zz = chars_of("00");
                proof {
                    reveal_strlit("00");
                }
                if c.len() == 2 {
                    toks.push(to_vec(c[0].as_slice()));
                    toks.push(to_vec(c[1].as_slice()));
                    assert(cv[0] == c@[0]@ && cv[1] == c@[1]@);
                } else if c.len() >= 3 {
                    assert(cv[0] == c@[0]@ && cv[2] == c@[2]@);
                    if !text::eq_chars(c[2].as_slice(), zz.as_slice()) {
                        if !text::eq_chars(c[0].as_slice(), zz.as_slice()) {
                            toks.push(to_vec(c[2].as_slice()));
                            toks.push(to_vec(c[0].as_slice()));
                        } else {
                            toks.push(to_vec(c[2].as_slice()));
                            toks.push(zz);
                        }
                    } else {
                        toks.push(zz);
                        toks.push(to_vec(c[0].as_slice()));
                    }
                } else if c.len() == 1 {
                    assert(cv[0] == c@[0]@);
                    toks.push(to_vec(c[0].as_slice()));
                    toks.push(zz);
                }
                assert(text::view_all(toks@) =~= model::key_tokens(cv));
                self.emit_tokens(&toks)
            },
        }
    }

    /// Types each character of `s` in turn.
    fn inject_chars(&mut self, s: &[char]) -> (r: CompilerResult<()>)
        requires
            old(self).wf(),
        ensures
            final(self).wf(),
            final(self).same_frame(old(self)),
            final(self).model() == model::inject_all(old(self).model(), s@).0,
            result_is(r, model::inject_all(old(self).model(), s@), old(self).current_line_index),
    {
        let mut i: usize = 0;
        assert(s@.skip(0) =~= s@);
        while i < s.len()
            invariant
                i <= s@.len(),
                self.wf(),
                self.same_frame(old(self)),
                self.current_line_index == old(self).current_line_index,
                model::inject_all(old(self).model(), s@) == model::inject_all(
                    self.model(),
                    s@.skip(i as int),
                ),
            decreases s@.len() - i,
        {
            let mut one: Vec<char> = Vec::new();
            one.push(s[i]);
            assert(one@ =~= seq![s@.skip(i as int)[0]]);
            assert(s@.skip(i as int).drop_first() =~= s@.skip(i + 1));
            let r = self.inject_character(one.as_slice());
            if r.is_err() {
                return r;
            }
            i = i + 1;
        }
        assert(s@.skip(i as int) =~= Seq::<char>::empty());
        Ok(())
    }

    /// Appends the two bytes of a 16-bit code, low byte first.
    fn emit_code(&mut self, v: u16)
        requires
            old(self).wf(),
        ensures
            final(self).wf(),
            final(self).model() == model::emit(old(self).model(), model::code_bytes(v)),
            final(self).same_frame(old(self)),
    {
        let t = hex_encode_chars(v);
        proof {
            encoder::lemma_hex_encode_bytes(v);
        }
        append_token(&mut self.output_buffer, t.as_slice());
    }

    /// Appends the bytes of an address written with `dec_to_hex`.
    fn emit_addr(&mut self, a: usize)
        requires
            old(self).wf(),
        ensures
            final(self).wf(),
            final(self).model() == model::emit(old(self).model(), model::addr_bytes(a as nat)),
            final(self).same_frame(old(self)),
    {
        let t = dec_to_hex_chars(a);
        proof {
            encoder::lemma_hex_digits_len(a as nat);
        }
        append_token(&mut self.output_buffer, t.as_slice());
    }

    /// Appends bytes.
    fn emit_bytes(&mut self, b: &[u8])
        requires
            old(self).wf(),
        ensures
            final(self).wf(),
            final(self).model() == model::emit(old(self).model(), b@),
            final(self).same_frame(old(self)),
    {
        extend_bytes(&mut self.output_buffer, b);
        assert(self.model() =~= model::emit(old(self).model(), b@));
    }

    /// Appends the bytes of hex tokens; a three-character token is refused.
    fn emit_tokens(&mut self, ts: &Vec<Vec<char>>) -> (r: CompilerResult<()>)
        requires
            old(self).wf(),
        ensures
            final(self).wf(),
            final(self).model() == model::emit_tokens(old(self).model(), text::view_all(ts@)).0,
            result_is(r, model::emit_tokens(old(self).model(), text::view_all(ts@)), old(self).current_line_index),
            final(self).same_frame(old(self)),
    {
        let ghost tv = text::view_all(ts@);
        let mut i: usize = 0;
        #[verifier::loop_isolation(false)]
        while i < ts.len()
            invariant
                i <= ts@.len(),
                tv == text::view_all(ts@),
                tv.len() == ts@.len(),
                forall|k: int| 0 <= k < i ==> encoder::string_cut_ok(#[trigger] tv[k]),
            decreases ts@.len() - i,
        {
            assert(tv[i as int] == ts@[i as int]@);
            if !encoder::string_cut_ok_chars(ts[i].as_slice()) {
                proof {
                    lemma_ill_sized_first(tv, i as int);
                }
                return Err(
                    CompilerError::InvalidHex {
                        line: self.current_line_index,
                        value: string_of(ts[i].as_slice()),
                    },
                );
            }
            i = i + 1;
        }
        let ghost o0 = self.output_buffer@;
        encoder::append_strings(&mut self.output_buffer, ts);
        assert(self.model() =~= model::emit(old(self).model(), encoder::strings_bytes(tv)));
        Ok(())
    }
}

impl DuckyCompiler {
    fn mark_ds3(&mut self)
        requires
            old(self).wf(),
        ensures
            final(self).wf(),
            final(self).same_frame(old(self)),
            final(self).model() == model::mark_ds3(old(self).model()),
    {
        self.ds3_detected = true;
    }

    /// DELAY n.
    fn handle_delay(&mut self, line: &[char]) -> (r: CompilerResult<()>)
        requires
            old(self).wf(),
        ensures
            old(self).leads_to(*final(self), model::handle_delay(old(self).model(), line@), r),
    {
        let p = split_words(line);
        if p.len() < 2 {
            return Ok(());
        }
        assert(text::view_all(p@)[1] == p@[1]@);
        match parse_unsigned_chars(p[1].as_slice(), 0xffff_ffff) {
            Some(d) => {
                self.delay_override = true;
                let toks = encoder::delay_tokens_chars(d as u32);
                proof {
                    lemma_delay_tokens_sized(d as nat);
                }
                encoder::append_tokens(&mut self.output_buffer, &toks);
                Ok(())
            },
            None => Ok(()),
        }
    }

    /// KEY_DOWN, KEY_UP, MOD_DOWN, MOD_UP.
    fn handle_one_operand(&mut self, line: &[char], opcode: u16) -> (r: CompilerResult<()>)
        requires
            old(self).wf(),
        ensures
            old(self).leads_to(
                *final(self),
                model::handle_one_operand(old(self).model(), line@, opcode),
                r,
            ),
    {
        self.mark_ds3();
        self.emit_code(opcode);
        let b = single_operand(line);
        self.output_buffer.push(b);
        assert(self.model() =~= model::emit(
            model::mark_ds3(old(self).model()),
            model::code_bytes(opcode) + seq![b],
        ));
        Ok(())
    }

    /// MOD_KEY_DOWN, MOD_KEY_UP.
    fn handle_two_operands(&mut self, line: &[char], opcode: u16) -> (r: CompilerResult<()>)
        requires
            old(self).wf(),
        ensures
            old(self).leads_to(
                *final(self),
                model::handle_two_operands(old(self).model(), line@, opcode),
                r,
            ),
    {
        self.mark_ds3();
        self.emit_code(opcode);
        let (a, b) = two_operands(line);
        self.output_buffer.push(a);
        self.output_buffer.push(b);
        assert(self.model() =~= model::emit(
            model::mark_ds3(old(self).model()),
            model::code_bytes(opcode) + seq![a, b],
        ));
        Ok(())
    }

    /// INJECT and KEYCODE.
    fn handle_inject(&mut self, line: &[char]) -> (r: CompilerResult<()>)
        requires
            old(self).wf(),
        ensures
            old(self).leads_to(*final(self), model::handle_inject(old(self).model(), line@), r),
    {
        self.mark_ds3();
        let p = split_words(line);
        if p.len() >= 2 {
            assert(text::view_all(p@)[1] == p@[1]@);
            self.emit_code(0xE8E9);
            let param = strip_hex_prefix(p[1].as_slice());
            let mut toks: Vec<Vec<char>> = Vec::new();
            toks.push(param);
            assert(text::view_all(toks@) =~= seq![model::strip_hex_prefix(p@[1]@)]);
            self.emit_tokens(&toks)
        } else {
            Ok(())
        }
    }

    /// Appends the bytes that stand for a variable.
    fn emit_var_ref(&mut self, name: &[char]) -> (r: CompilerResult<()>)
        requires
            old(self).wf(),
        ensures
            final(self).wf(),
            final(self).same_frame(old(self)),
            match model::var_ref(old(self).model(), name@) {
                Some(b) => r is Ok && final(self).model() == model::emit(old(self).model(), b),
                None => final(self).model() == old(self).model() && (r matches Err(e)
                    && error_is(e, Fault::UnknownVariable(name@), old(self).current_line_index)),
            },
    {
        match self.state.get_var_address_chars(name) {
            Some(a) => {
                self.emit_addr(a);
                Ok(())
            },
            None => match reserved_variable_code_of(name) {
                Some(v) => {
                    self.emit_code(v);
                    Ok(())
                },
                None => Err(
                    CompilerError::UnknownVariable {
                        line: self.current_line_index,
                        name: string_of(name),
                    },
                ),
            },
        }
    }

    /// INJECT_VAR and DELAY $var.
    fn handle_var_command(&mut self, line: &[char], opcode: u16) -> (r: CompilerResult<()>)
        requires
            old(self).wf(),
        ensures
            old(self).leads_to(
                *final(self),
                model::handle_var_command(old(self).model(), line@, opcode),
                r,
            ),
    {
        self.mark_ds3();
        let p = split_words(line);
        if p.len() < 2 {
            return Ok(());
        }
        assert(text::view_all(p@)[1] == p@[1]@);
        self.emit_code(opcode);
        self.emit_var_ref(p[1].as_slice())
    }

    /// EXFIL $var.
    fn handle_exfil(&mut self, line: &[char]) -> (r: CompilerResult<()>)
        requires
            old(self).wf(),
        ensures
            old(self).leads_to(*final(self), model::handle_exfil(old(self).model(), line@), r),
    {
        self.mark_ds3();
        let p = split_words(line);
        if p.len() < 2 {
            return Ok(());
        }
        assert(text::view_all(p@)[1] == p@[1]@);
        self.emit_code(0xE9F6);
        match self.state.get_var_address_chars(p[1].as_slice()) {
            Some(a) => {
                self.emit_addr(a);
                Ok(())
            },
            None => Err(
                CompilerError::UnknownVariable {
                    line: self.current_line_index,
                    name: string_of(p[1].as_slice()),
                },
            ),
        }
    }

    /// RANDOM_LOWERCASE_LETTER and the other RANDOM_ commands.
    fn handle_random(&mut self, var_code: u16) -> (r: CompilerResult<()>)
        requires
            old(self).wf(),
        ensures
            old(self).leads_to(*final(self), model::handle_random(old(self).model(), var_code), r),
    {
        self.mark_ds3();
        self.state.requires_lang_pack = true;
        self.emit_code(0xE9E9);
        self.emit_code(var_code);
        assert(self.model() =~= model::handle_random(old(self).model(), var_code).0);
        Ok(())
    }

    /// BUTTON_DEF.
    fn handle_button_def(&mut self) -> (r: CompilerResult<()>)
        requires
            old(self).wf(),
        ensures
            old(self).leads_to(*final(self), model::handle_button_def(old(self).model()), r),
    {
        self.mark_ds3();
        let n: u32 = if self.defining_button == u32::MAX {
            0
        } else {
            self.defining_button + 1
        };
        self.defining_button = n;
        self.button_block_stack.push(n);
        self.emit_bytes(&[0xEAu8, 0xEEu8]);
        self.emit_addr(n as usize);
        assert(self.model() =~= model::handle_button_def(old(self).model()).0);
        Ok(())
    }

    /// END_BUTTON.
    fn handle_end_button_def(&mut self) -> (r: CompilerResult<()>)
        requires
            old(self).wf(),
        ensures
            old(self).leads_to(*final(self), model::handle_end_button_def(old(self).model()), r),
    {
        self.mark_ds3();
        let addr: u32 = match self.button_block_stack.pop() {
            Some(a) => a,
            None => if self.defining_button >= 1 {
                self.defining_button
            } else {
                1
            },
        };
        self.emit_bytes(&[0xEBu8, 0xF4u8]);
        self.emit_addr(addr as usize);
        self.defining_button = if self.defining_button >= 1 {
            self.defining_button - 1
        } else {
            0
        };
        assert(self.model() =~= model::handle_end_button_def(old(self).model()).0);
        Ok(())
    }

    /// DEFAULT_DELAY n.
    fn handle_default_delay(&mut self, line: &[char]) -> (r: CompilerResult<()>)
        requires
            old(self).wf(),
        ensures
            old(self).leads_to(
                *final(self),
                model::handle_default_delay(old(self).model(), line@),
                r,
            ),
    {
        let p = split_words(line);
        if p.len() >= 2 {
            assert(text::view_all(p@)[1] == p@[1]@);
            match parse_unsigned_chars(p[1].as_slice(), 0xffff_ffff) {
                Some(d) => {
                    self.default_delay = d as u32;
                    self.delay_override = true;
                },
                None => {},
            }
        }
        Ok(())
    }

    /// STRING_DELAY n: accepted, and without effect on the payload.
    fn handle_string_delay(&mut self, line: &[char]) -> (r: CompilerResult<()>)
        requires
            old(self).wf(),
        ensures
            old(self).leads_to(*final(self), model::ok(old(self).model()), r),
    {
        let p = split_words(line);
        if p.len() >= 2 {
            let _ = parse_unsigned_chars(p[1].as_slice(), 0xffff_ffff);
        }
        Ok(())
    }

    /// STRING text.
    fn handle_string(&mut self, line: &[char]) -> (r: CompilerResult<()>)
        requires
            old(self).wf(),
        ensures
            old(self).leads_to(*final(self), model::handle_string(old(self).model(), line@), r),
    {
        let args = string_args(line);
        let content = strip_marker(args.as_slice(), " END_STRING");
        self.inject_chars(content.as_slice())
    }

    /// STRINGLN text.
    fn handle_stringln(&mut self, line: &[char]) -> (r: CompilerResult<()>)
        requires
            old(self).wf(),
        ensures
            old(self).leads_to(*final(self), model::handle_stringln(old(self).model(), line@), r),
    {
        let args = string_args(line);
        let content = strip_marker(args.as_slice(), " END_STRINGLN");
        let r = self.inject_chars(content.as_slice());
        if r.is_err() {
            return r;
        }
        let enter = chars_of("ENTER");
        self.inject_character(enter.as_slice())
    }

    /// Types each key of `keys` from position `from` on.
    fn inject_keys(&mut self, keys: &Vec<Vec<char>>, from: usize) -> (r: CompilerResult<()>)
        requires
            old(self).wf(),
            from <= keys@.len(),
        ensures
            old(self).leads_to(
                *final(self),
                model::inject_keys(old(self).model(), text::view_all(keys@).skip(from as int)),
                r,
            ),
    {
        let ghost ks = text::view_all(keys@);
        let mut i: usize = from;
        while i < keys.len()
            invariant
                from <= i <= keys@.len(),
                ks == text::view_all(keys@),
                self.wf(),
                self.same_frame(old(self)),
                self.current_line_index == old(self).current_line_index,
                model::inject_keys(old(self).model(), ks.skip(from as int)) == model::inject_keys(
                    self.model(),
                    ks.skip(i as int),
                ),
            decreases keys@.len() - i,
        {
            assert(ks.skip(i as int)[0] == keys@[i as int]@);
            assert(ks.skip(i as int).drop_first() =~= ks.skip(i + 1));
            let r = self.inject_character(keys[i].as_slice());
            if r.is_err() {
                return r;
            }
            i = i + 1;
        }
        assert(ks.skip(i as int) =~= Seq::<Seq<char>>::empty());
        Ok(())
    }

    /// HOLD keys.
    fn handle_hold(&mut self, line: &[char]) -> (r: CompilerResult<()>)
        requires
            old(self).wf(),
        ensures
            old(self).leads_to(*final(self), model::handle_hold(old(self).model(), line@), r),
    {
        let p = split_words(line);
        if p.len() >= 2 {
            self.emit_code(0xF8FF);
            self.inject_keys(&p, 1)
        } else {
            Ok(())
        }
    }

    /// RELEASE keys.
    fn handle_release(&mut self, line: &[char]) -> (r: CompilerResult<()>)
        requires
            old(self).wf(),
        ensures
            old(self).leads_to(*final(self), model::handle_release(old(self).model(), line@), r),
    {
        let p = split_words(line);
        if p.len() >= 2 {
            self.emit_code(0xE8EE);
            self.inject_keys(&p, 1)
        } else {
            self.emit_bytes(&[0u8, 0u8]);
            Ok(())
        }
    }

    /// The first code of a key, or `00`.
    fn first_code(&self, key: &[char]) -> (r: Vec<char>)
        ensures
            r@ == model::first_code(self.model(), key@),
    {
        proof {
            reveal_strlit("00");
        }
        match self.keyboard_layout.codes_for(key) {
            Some(c) => if c.len() >= 1 {
                assert(text::view_all(c@)[0] == c@[0]@);
                to_vec(c[0].as_slice())
            } else {
                chars_of("00")
            },
            None => chars_of("00"),
        }
    }

    /// INJECT_MOD.
    #[verifier::spinoff_prover]
    #[verifier::rlimit(40)]
    fn handle_inject_mod(&mut self, line: &[char]) -> (r: CompilerResult<()>)
        requires
            old(self).wf(),
        ensures
            old(self).leads_to(*final(self), model::handle_inject_mod(old(self).model(), line@), r),
    {
        if self.modifier_queue.len() > 0 {
            let mut q: Vec<Vec<char>> = Vec::new();
            std::mem::swap(&mut q, &mut self.modifier_queue);
            assert(text::view_all(self.modifier_queue@) =~= Seq::<Seq<char>>::empty());
            let r = self.emit_tokens(&q);
            if r.is_err() {
                return r;
            }
        }
        self.emit_code(0xE9E6);
        let p = split_words(line);
        if p.len() >= 2 {
            let rest = to_vec_words(&p, 1);
            let param = join_words_chars(&rest);
            let m = self.first_code(param.as_slice());
            let mut toks: Vec<Vec<char>> = Vec::new();
            toks.push(chars_of("00"));
            toks.push(m);
            proof {
                reveal_strlit("00");
            }
            assert(text::view_all(toks@) =~= seq!["00"@, m@]);
            self.emit_tokens(&toks)
        } else {
            Ok(())
        }
    }

    /// The value of a modifier variable.
    fn modifier_value(&self, modifier: &[char], key: &[char]) -> (r: Vec<char>)
        ensures
            r@ == model::modifier_value(self.model(), modifier@, key@),
    {
        proof {
            reveal_strlit("00");
            reveal_strlit("0000");
        }
        let mc = self.keyboard_layout.codes_for(modifier);
        let kc = if key.len() > 0 {
            self.keyboard_layout.codes_for(key)
        } else {
            None
        };
        match (mc, kc) {
            (Some(mc), Some(k)) => if k.len() >= 1 && mc.len() >= 1 {
                assert(text::view_all(k@)[0] == k@[0]@);
                assert(text::view_all(mc@)[0] == mc@[0]@);
                let mut v = to_vec(k[0].as_slice());
                let mut i: usize = 0;
                let ghost v0 = v@;
                while i < mc[0].len()
                    invariant
                        i <= mc@[0]@.len(),
                        mc@.len() >= 1,
                        v@ == v0 + mc@[0]@.take(i as int),
                    decreases mc@[0]@.len() - i,
                {
                    v.push(mc[0][i]);
                    assert(v0 + mc@[0]@.take(i + 1) =~= (v0 + mc@[0]@.take(i as int)).push(
                        mc@[0]@[i as int],
                    ));
                    i = i + 1;
                }
                assert(mc@[0]@.take(mc@[0]@.len() as int) =~= mc@[0]@);
                v
            } else {
                chars_of("0000")
            },
            (Some(mc), None) => if mc.len() >= 1 {
                assert(text::view_all(mc@)[0] == mc@[0]@);
                let mut v = to_vec(mc[0].as_slice());
                v.push('0');
                v.push('0');
                assert(v@ =~= mc@[0]@ + "00"@);
                v
            } else {
                chars_of("0000")
            },
            _ => chars_of("0000"),
        }
    }

    /// The address of `name`, which is given the next address and the value
    /// `v` when it has none.
    fn ensure_var(&mut self, name: &[char], v: Vec<char>) -> (addr: usize)
        requires
            old(self).wf(),
        ensures
            final(self).wf(),
            final(self).same_frame(old(self)),
            final(self).model() == (if old(self).model().vars.dom().contains(name@) {
                old(self).model()
            } else {
                model::with_var(old(self).model(), name@, v@)
            }),
            final(self).model().vars.dom().contains(name@),
            addr == final(self).model().vars[name@],
    {
        match self.state.get_var_address_chars(name) {
            Some(a) => a,
            None => {
                let ghost vv = v@;
                let a = self.state.allocate_var_chars(name);
                let _ = self.state.assign_value_chars(name, v);
                assert(self.state.values_view() =~= old(self).state.values_view().push(vv));
                assert(self.model() =~= model::with_var(old(self).model(), name@, vv));
                a
            },
        }
    }

    /// A modifier line: queues the address of its combination's variable.
    fn handle_modifier(&mut self, line: &[char]) -> (r: CompilerResult<()>)
        requires
            old(self).wf(),
        ensures
            old(self).leads_to(*final(self), model::handle_modifier(old(self).model(), line@), r),
    {
        let p = split_words(line);
        if p.len() == 0 {
            return Ok(());
        }
        assert(text::view_all(p@)[0] == p@[0]@);
        let key: Vec<char> = if p.len() > 1 {
            assert(text::view_all(p@)[1] == p@[1]@);
            to_vec(p[1].as_slice())
        } else {
            Vec::new()
        };
        let mut name = chars_of("__MOD_");
        append_chars(&mut name, p[0].as_slice());
        name.push('_');
        append_chars(&mut name, key.as_slice());
        proof {
            reveal_strlit("_");
            assert(name@ =~= "__MOD_"@ + p@[0]@ + "_"@ + key@);
        }
        let v = self.modifier_value(p[0].as_slice(), key.as_slice());
        let addr = self.ensure_var(name.as_slice(), v);
        let h = dec_to_hex_chars(addr);
        proof {
            text::lemma_view_all_push(self.modifier_queue@, h);
        }
        self.modifier_queue.push(h);
        assert(self.model() =~= model::handle_modifier(old(self).model(), line@).0);
        Ok(())
    }

    /// Types the line number shown to the user and `;`.
    fn inject_line_number(&mut self) -> (r: CompilerResult<()>)
        requires
            old(self).wf(),
        ensures
            old(self).leads_to(*final(self), model::inject_line_number(old(self).model()), r),
    {
        let d = decimal_chars((self.current_line_index as u128) + 3);
        let r = self.inject_chars(d.as_slice());
        if r.is_err() {
            return r;
        }
        let semi = chars_of(";");
        self.inject_character(semi.as_slice())
    }

    /// INJECT_BREAKPOINT_LINE_NUMBER.
    fn handle_inject_line_number(&mut self) -> (r: CompilerResult<()>)
        requires
            old(self).wf(),
        ensures
            old(self).leads_to(*final(self), model::handle_inject_line_number(old(self).model()), r),
    {
        self.mark_ds3();
        let r = self.inject_line_number();
        if r.is_err() {
            return r;
        }
        self.delay_override = true;
        let toks = encoder::delay_tokens_chars(800);
        proof {
            lemma_delay_tokens_sized(800);
        }
        encoder::append_tokens(&mut self.output_buffer, &toks);
        Ok(())
    }

    /// Appends the code of a built-in command, if it is one.
    fn emit_builtin(&mut self, name: &str)
        requires
            old(self).wf(),
        ensures
            final(self).wf(),
            final(self).same_frame(old(self)),
            final(self).model() == model::emit(old(self).model(), model::builtin_bytes(name@)),
    {
        let n = chars_of(name);
        match builtin_code_of(n.as_slice()) {
            Some(v) => self.emit_code(v),
            None => {
                assert(self.model() =~= model::emit(old(self).model(), Seq::empty()));
            },
        }
    }

    /// BREAKPOINT.
    fn handle_breakpoint(&mut self) -> (r: CompilerResult<()>)
        requires
            old(self).wf(),
        ensures
            old(self).leads_to(*final(self), model::handle_breakpoint(old(self).model()), r),
    {
        self.mark_ds3();
        let enter = chars_of("ENTER");
        let r = self.inject_character(enter.as_slice());
        if r.is_err() {
            return r;
        }
        let bp = chars_of("BREAKPOINT ");
        let r = self.inject_chars(bp.as_slice());
        if r.is_err() {
            return r;
        }
        let r = self.inject_line_number();
        if r.is_err() {
            return r;
        }
        let ghost m3 = self.model();
        self.emit_builtin("LED_R");
        self.emit_builtin("WAIT_FOR_BUTTON_PRESS");
        self.emit_builtin("LED_G");
        assert(self.model() =~= model::emit(
            m3,
            model::builtin_bytes("LED_R"@) + model::builtin_bytes("WAIT_FOR_BUTTON_PRESS"@)
                + model::builtin_bytes("LED_G"@),
        ));
        self.inject_character(enter.as_slice())
    }

    /// The key and modifier sums of a key combination.
    fn key_sums(&self, parts: &Vec<Vec<char>>) -> (r: (u8, u8))
        ensures
            r == model::key_sums(self.model(), text::view_all(parts@)),
    {
        let ghost ps = text::view_all(parts@);
        let mut k: u8 = 0;
        let mut md: u8 = 0;
        let mut i: usize = 0;
        assert(ps.take(0) =~= Seq::<Seq<char>>::empty());
        while i < parts.len()
            invariant
                i <= parts@.len(),
                ps == text::view_all(parts@),
                (k, md) == model::key_sums(self.model(), ps.take(i as int)),
            decreases parts@.len() - i,
        {
            assert(ps.take(i + 1).drop_last() =~= ps.take(i as int));
            assert(ps.take(i + 1).last() == parts@[i as int]@);
            match self.keyboard_layout.codes_for(parts[i].as_slice()) {
                Some(c) => {
                    if c.len() >= 3 {
                        assert(text::view_all(c@)[0] == c@[0]@);
                        assert(text::view_all(c@)[2] == c@[2]@);
                        let mv = parse_hex_byte_chars(c[0].as_slice());
                        let kv = parse_hex_byte_chars(c[2].as_slice());
                        if kv != 0 {
                            k = ((k as u16 + kv as u16) % 256) as u8;
                            if mv != 0 {
                                md = ((md as u16 + mv as u16) % 256) as u8;
                            }
                        } else {
                            md = ((md as u16 + mv as u16) % 256) as u8;
                        }
                    } else if c.len() >= 1 {
                        assert(text::view_all(c@)[0] == c@[0]@);
                        let b = parse_hex_byte_chars(c[0].as_slice());
                        k = ((k as u16 + b as u16) % 256) as u8;
                    }
                },
                None => {},
            }
            i = i + 1;
        }
        assert(ps.take(i as int) =~= ps);
        (k, md)
    }

    /// Any other line.
    fn handle_unknown(&mut self, line: &[char]) -> (r: CompilerResult<()>)
        requires
            old(self).wf(),
        ensures
            old(self).leads_to(*final(self), model::handle_unknown(old(self).model(), line@), r),
    {
        let t = trim_chars(line);
        let restore = chars_of("RESTORE_HOST_KEYBOARD_LOCK_STATE");
        let lt = lower_chars(t);
        let lr = lower_chars(restore.as_slice());
        if eq_chars(lt.as_slice(), lr.as_slice()) && builtin_code_of(restore.as_slice()).is_some() {
            self.emit_builtin("RESTORE_HOST_KEYBOARD_LOCK_STATE");
            self.emit_bytes(&[0u8, 0u8, 0u8, 0u8, 0u8, 0u8]);
            assert(self.model() =~= model::handle_unknown(old(self).model(), line@).0);
            return Ok(());
        }
        match builtin_code_of(t) {
            Some(v) => {
                self.emit_code(v);
                return Ok(());
            },
            None => {},
        }
        let ws = split_words(t);
        let parts = without_dashes(&ws);
        if parts.len() > 1 {
            let (k, md) = self.key_sums(&parts);
            self.emit_bytes(&[k, md]);
            assert(seq![k, md] =~= [k, md]@);
            Ok(())
        } else {
            self.inject_character(t)
        }
    }

    /// The delay tokens owed after a line, if any.
    fn check_delay(&self) -> (r: Option<Vec<Vec<char>>>)
        ensures
            match model::pending_delay(self.model()) {
                Some(ts) => r matches Some(v) && text::view_all(v@) == ts,
                None => r is None,
            },
    {
        if !self.delay_override && self.default_delay > 0 {
            Some(encoder::delay_tokens_chars(self.default_delay))
        } else {
            None
        }
    }

    /// Refuses a program that leaves a block open.
    fn post_process(&self) -> (r: CompilerResult<()>)
        ensures
            match model::unclosed(self.model()) {
                Some(b) => r matches Err(CompilerError::MissingEnd { line, block_type })
                    && line == self.current_line_index && block_type@ == b,
                None => r is Ok,
            },
    {
        let b = if self.state.block_stack.len() > 0 {
            "IF/WHILE"
        } else if self.inside_string_block {
            "STRING"
        } else if self.inside_stringln_block {
            "STRINGLN"
        } else if self.defining_button > 0 {
            "BUTTON"
        } else {
            return Ok(());
        };
        Err(CompilerError::MissingEnd { line: self.current_line_index, block_type: b.to_string() })
    }
}

/// The expression state held in the compiler and in the locals of a command.
pub open spec fn parse_of(
    m: Model,
    stack: Seq<Vec<char>>,
    out: Seq<Vec<char>>,
    lp: usize,
    rp: usize,
) -> model::Parse {
    model::Parse { m, stack: text::view_all(stack), out: text::view_all(out), lp: lp as nat, rp: rp as nat }
}

impl DuckyCompiler {
    /// Takes an evaluation register; false when none can be added.
    fn next_reg(&mut self) -> (r: bool)
        requires
            old(self).wf(),
        ensures
            final(self).wf(),
            final(self).same_frame(old(self)),
            match model::next_reg(old(self).model()) {
                Some(m1) => r && final(self).model() == m1,
                None => !r && final(self).model() == old(self).model(),
            },
    {
        if self.state.free_eval_registers == 0 && self.state.total_eval_registers == usize::MAX {
            return false;
        }
        self.state.next_register();
        assert(self.model() =~= model::next_reg(old(self).model()).unwrap());
        true
    }

    /// One register fewer is free.
    fn release_reg(&mut self)
        requires
            old(self).wf(),
        ensures
            final(self).wf(),
            final(self).same_frame(old(self)),
            final(self).model() == model::release_reg(old(self).model()),
    {
        if self.state.free_eval_registers > 0 {
            self.state.free_eval_registers = self.state.free_eval_registers - 1;
        }
        assert(self.model() =~= model::release_reg(old(self).model()));
    }

    /// A call `name()`.
    fn handle_function_call(&mut self, line: &[char]) -> (r: CompilerResult<()>)
        requires
            old(self).wf(),
        ensures
            old(self).leads_to(
                *final(self),
                model::handle_function_call(old(self).model(), line@),
                r,
            ),
    {
        self.mark_ds3();
        let t = trim_chars(line);
        let name = strip_all_suffix_chars(t, "()");
        let mut label = chars_of("function_");
        append_chars(&mut label, name.as_slice());
        match self.state.label_map.get(label.as_slice()) {
            Some(a) => {
                self.emit_bytes(&[0xF7u8, 0xF7u8]);
                self.emit_addr(a / 2 + 3);
                assert([0xF7u8, 0xF7u8]@ =~= seq![0xF7u8, 0xF7u8]);
                assert(self.model() =~= model::handle_function_call(old(self).model(), line@).0);
            },
            None => {
                self.emit_bytes(&[0xF7u8, 0xF7u8, 0u8, 0u8]);
                assert([0xF7u8, 0xF7u8, 0u8, 0u8]@ =~= seq![0xF7u8, 0xF7u8, 0u8, 0u8]);
                let pos = self.output_buffer.len() - 2;
                self.goto_awaiting_label.push((label, pos));
                assert(self.model() =~= model::handle_function_call(old(self).model(), line@).0);
            },
        }
        Ok(())
    }

    /// Appends the tokens of one expression word.
    fn encode_word(&mut self, w: &[char], toks: &mut Vec<Vec<char>>)
        requires
            old(self).wf(),
        ensures
            final(self).wf(),
            final(self).same_frame(old(self)),
            final(self).model() == model::encode_word(old(self).model(), w@).0,
            text::view_all(final(toks)@) == text::view_all(old(toks)@) + model::encode_word(
                old(self).model(),
                w@,
            ).1,
    {
        let ghost t0 = text::view_all(toks@);
        let t: Vec<char>;
        proof {
            reveal_strlit("0000");
        }
        if eq_str(w, "0000") {
            t = chars_of("0000");
        } else if eq_str(w, "IF") {
            t = hex_encode_chars(0xEFEF);
        } else if reserved_variable_code_of(w).is_some() {
            t = hex_encode_chars(reserved_variable_code_of(w).unwrap());
        } else if reserved_constant_code_of(w).is_some() {
            t = hex_encode_chars(reserved_constant_code_of(w).unwrap());
        } else if operator_code_of(w).is_some() {
            t = hex_encode_chars(operator_code_of(w).unwrap());
        } else if starts_with_str(w, "$") {
            let z = chars_of("0000");
            let a = self.ensure_var(w, z);
            t = dec_to_hex_chars(a);
        } else if eq_str(w, "=") {
            t = hex_encode_chars(0x01E8);
        } else if starts_with_str(w, "0x") {
            let f = format_hex_chars(w);
            let v = swap_hex_chars(f.as_slice());
            let a = self.ensure_var(w, v);
            t = dec_to_hex_chars(a);
        } else if parse_i32_chars(w).is_some() {
            let v = match parse_unsigned_chars(w, 0xffff) {
                Some(n) => hex_encode_chars(n as u16),
                None => chars_of("0000"),
            };
            let a = self.ensure_var(w, v);
            t = dec_to_hex_chars(a);
        } else {
            assert(t0 + Seq::<Seq<char>>::empty() =~= t0);
            return ;
        }
        proof {
            text::lemma_view_all_push(toks@, t);
        }
        toks.push(t);
        assert(text::view_all(toks@) =~= t0 + model::encode_word(old(self).model(), w@).1);
    }

    /// The tokens of the words of an expression.
    fn encode_all(&mut self, ws: &Vec<Vec<char>>) -> (toks: Vec<Vec<char>>)
        requires
            old(self).wf(),
        ensures
            final(self).wf(),
            final(self).same_frame(old(self)),
            final(self).model() == model::encode_all(old(self).model(), text::view_all(ws@)).0,
            text::view_all(toks@) == model::encode_all(old(self).model(), text::view_all(ws@)).1,
    {
        let ghost all = text::view_all(ws@);
        let mut toks: Vec<Vec<char>> = Vec::new();
        let mut i: usize = 0;
        assert(all.take(0) =~= Seq::<Seq<char>>::empty());
        while i < ws.len()
            invariant
                i <= ws@.len(),
                all == text::view_all(ws@),
                self.wf(),
                self.same_frame(old(self)),
                model::encode_all(old(self).model(), all.take(i as int)) == (
                    self.model(),
                    text::view_all(toks@),
                ),
            decreases ws@.len() - i,
        {
            assert(all.take(i + 1).drop_last() =~= all.take(i as int));
            assert(all.take(i + 1).last() == ws@[i as int]@);
            self.encode_word(ws[i].as_slice(), &mut toks);
            i = i + 1;
        }
        assert(all.take(i as int) =~= all);
        toks
    }

    /// Makes a register hold the result of a call inside an expression.
    fn call_in_expression(&mut self, w: &[char], stack: &mut Vec<Vec<char>>) -> (r: CompilerResult<()>)
        requires
            old(self).wf(),
        ensures
            ({
                let q = model::call_in_expression(
                    parse_of(old(self).model(), old(stack)@, Seq::empty(), 0, 0),
                    w@,
                );
                &&& final(self).wf()
                &&& final(self).same_frame(old(self))
                &&& final(self).model() == q.0.m
                &&& text::view_all(final(stack)@) == q.0.stack
                &&& result_is(r, (q.0.m, q.1), old(self).current_line_index)
            }),
        decreases 1nat, 0nat,
    {
        if !self.next_reg() {
            return Err(
                CompilerError::InvalidExpression {
                    line: self.current_line_index,
                    message: "too many evaluation registers".to_string(),
                },
            );
        }
        let reg = self.state.current_register_chars();
        let reg2 = to_vec(reg.as_slice());
        proof {
            text::lemma_view_all_push(stack@, reg2);
        }
        stack.push(reg2);
        let r = self.handle_function_call(w);
        if r.is_err() {
            return r;
        }
        let mut line = to_vec(reg.as_slice());
        let tail = chars_of(" = $_f_ret");
        append_chars(&mut line, tail.as_slice());
        let r2 = self.handle_assignment(line.as_slice(), false);
        if r2.is_err() {
            return r2;
        }
        self.release_reg();
        Ok(())
    }

    /// One word of an IF condition.
    fn if_step(
        &mut self,
        w: &[char],
        stack: &mut Vec<Vec<char>>,
        out: &mut Vec<Vec<char>>,
        lp: &mut usize,
        rp: &mut usize,
    ) -> (r: CompilerResult<()>)
        requires
            old(self).wf(),
            *old(lp) < usize::MAX,
            *old(rp) < usize::MAX,
        ensures
            ({
                let q = model::if_step(
                    parse_of(old(self).model(), old(stack)@, old(out)@, *old(lp), *old(rp)),
                    w@,
                );
                &&& final(self).wf()
                &&& final(self).same_frame(old(self))
                &&& parse_of(final(self).model(), final(stack)@, final(out)@, *final(lp), *final(rp))
                    == q.0
                &&& result_is(r, (q.0.m, q.1), old(self).current_line_index)
            }),
    {
        proof {
            reveal_strlit("0000");
            reveal_strlit("=");
        }
        if eq_str(w, "IF") || eq_str(w, "THEN") || eq_str(w, "{") {
            return Ok(());
        }
        if contains_str(w, "()") {
            return self.call_in_expression(w, stack);
        }
        if eq_str(w, "(") {
            *lp = *lp + 1;
            return Ok(());
        }
        if eq_str(w, ")") {
            *rp = *rp + 1;
            if !self.next_reg() {
                return Err(
                    CompilerError::InvalidExpression {
                        line: self.current_line_index,
                        message: "too many evaluation registers".to_string(),
                    },
                );
            }
            let reg = self.state.current_register_chars();
            let n = stack.len();
            let ghost s0 = text::view_all(stack@);
            let ghost o0 = text::view_all(out@);
            if n >= 3 {
                let var2 = vec_pop(stack);
                let op = vec_pop(stack);
                let var1 = vec_pop(stack);
                assert(text::view_all(stack@) =~= s0.take(n - 3));
                let reg2 = to_vec(reg.as_slice());
                proof {
                    text::lemma_view_all_push(stack@, reg2);
                }
                stack.push(reg2);
                assert(text::view_all(stack@) =~= s0.take(n - 3).push(reg@));
                let ghost items = seq!["="@, reg@, var1@, var2@, op@];
                assert(items =~= seq!["="@, reg@, s0[n - 3], s0[n - 1], s0[n - 2]]);
                let arr = [chars_of("="), reg, var1, var2, op];
                assert(text::view_all(arr@) =~= items);
                push_all(out, &arr);
                self.release_reg();
                return Ok(());
            } else if n == 0 {
                return Err(EmptyExpression_at(self.current_line_index));
            } else if n == 2 {
                return Err(
                    CompilerError::InvalidExpression {
                        line: self.current_line_index,
                        message: "incomplete operation before )".to_string(),
                    },
                );
            } else {
                let var1 = vec_pop(stack);
                let reg2 = to_vec(reg.as_slice());
                proof {
                    text::lemma_view_all_push(stack@, reg2);
                }
                stack.push(reg2);
                assert(text::view_all(stack@) =~= seq![reg@]);
                let ghost items = seq!["="@, reg@, var1@, "0000"@];
                assert(items =~= seq!["="@, reg@, s0[0], "0000"@]);
                let arr = [chars_of("="), reg, var1, chars_of("0000")];
                assert(text::view_all(arr@) =~= items);
                push_all(out, &arr);
                self.release_reg();
                return Ok(());
            }
        }
        let w2 = to_vec(w);
        proof {
            text::lemma_view_all_push(stack@, w2);
        }
        stack.push(w2);
        Ok(())
    }

    /// One word of an assignment.
    fn assign_step(
        &mut self,
        w: &[char],
        calls: bool,
        stack: &mut Vec<Vec<char>>,
        out: &mut Vec<Vec<char>>,
        lp: &mut usize,
        rp: &mut usize,
    ) -> (r: CompilerResult<()>)
        requires
            old(self).wf(),
            *old(lp) < usize::MAX,
            *old(rp) < usize::MAX,
        ensures
            ({
                let q = model::assign_step(
                    parse_of(old(self).model(), old(stack)@, old(out)@, *old(lp), *old(rp)),
                    w@,
                    calls,
                );
                &&& final(self).wf()
                &&& final(self).same_frame(old(self))
                &&& parse_of(final(self).model(), final(stack)@, final(out)@, *final(lp), *final(rp))
                    == q.0
                &&& result_is(r, (q.0.m, q.1), old(self).current_line_index)
            }),
        decreases (if calls {
            2nat
        } else {
            0nat
        }),
            0nat,
    {
        proof {
            reveal_strlit("=");
        }
        if eq_str(w, "VAR") {
            return Ok(());
        }
        if calls && contains_str(w, "()") {
            return self.call_in_expression(w, stack);
        }
        if eq_str(w, "=") {
            let w2 = to_vec(w);
            stack.insert(0, w2);
            assert(text::view_all(stack@) =~= seq![w@] + text::view_all(old(stack)@));
            return Ok(());
        }
        if eq_str(w, "(") {
            *lp = *lp + 1;
            return Ok(());
        }
        if eq_str(w, ")") {
            *rp = *rp + 1;
            let n = stack.len();
            if n == 0 {
                self.release_reg();
                return Ok(());
            }
            if !self.next_reg() {
                return Err(
                    CompilerError::InvalidExpression {
                        line: self.current_line_index,
                        message: "too many evaluation registers".to_string(),
                    },
                );
            }
            let reg = self.state.current_register_chars();
            let ghost s0 = text::view_all(stack@);
            if n > 3 {
                let var2 = vec_pop(stack);
                let op = vec_pop(stack);
                let var1 = vec_pop(stack);
                let reg2 = to_vec(reg.as_slice());
                proof {
                    text::lemma_view_all_push(stack@, reg2);
                }
                stack.push(reg2);
                assert(text::view_all(stack@) =~= s0.take(n - 3).push(reg@));
                let ghost items = seq!["="@, reg@, var1@, var2@, op@];
                assert(items =~= seq!["="@, reg@, s0[n - 3], s0[n - 1], s0[n - 2]]);
                let arr = [chars_of("="), reg, var1, var2, op];
                assert(text::view_all(arr@) =~= items);
                push_all(out, &arr);
            } else {
                let var1 = vec_pop(stack);
                let reg2 = to_vec(reg.as_slice());
                proof {
                    text::lemma_view_all_push(stack@, reg2);
                }
                stack.push(reg2);
                assert(text::view_all(stack@) =~= s0.take(n - 1).push(reg@));
                let ghost items = seq!["="@, reg@, var1@];
                assert(items =~= seq!["="@, reg@, s0[n - 1]]);
                let arr = [chars_of("="), reg, var1];
                assert(text::view_all(arr@) =~= items);
                push_all(out, &arr);
            }
            self.release_reg();
            return Ok(());
        }
        let w2 = to_vec(w);
        proof {
            text::lemma_view_all_push(stack@, w2);
        }
        stack.push(w2);
        Ok(())
    }

    /// Reads the words of an assignment; a call in it is made only when `calls`.
    #[verifier::rlimit(40)]
    fn read_assignment(&mut self, ls_exec: &Vec<Vec<char>>, calls: bool) -> (r: Result<
        (Vec<Vec<char>>, Vec<Vec<char>>, usize, usize),
        CompilerError,
    >)
        requires
            old(self).wf(),
        ensures
            final(self).wf(),
            final(self).same_frame(old(self)),
            ({
                let q = model::assign_fold(
                    model::start(old(self).model()),
                    text::view_all(ls_exec@),
                    calls,
                );
                match r {
                    Ok((st, o, l, rr)) => q.1 is None && parse_of(final(self).model(), st@, o@, l, rr)
                        == q.0,
                    Err(e) => final(self).model() == q.0.m && (q.1 matches Some(f) && error_is(
                        e,
                        f,
                        old(self).current_line_index,
                    )),
                }
            }),
        decreases (if calls {
            2nat
        } else {
            0nat
        }),
            1nat,
    {
        let ghost ls = text::view_all(ls_exec@);
        let ghost m0 = self.model();
        let mut stack: Vec<Vec<char>> = Vec::new();
        let mut out: Vec<Vec<char>> = Vec::new();
        let mut lp: usize = 0;
        let mut rp: usize = 0;
        let mut i: usize = 0;
        assert(ls.skip(0) =~= ls);
        assert(text::view_all(stack@) =~= Seq::<Seq<char>>::empty());
        assert(text::view_all(out@) =~= Seq::<Seq<char>>::empty());
        assert(parse_of(m0, stack@, out@, lp, rp) =~= model::start(m0));
        while i < ls_exec.len()
            invariant
                i <= ls_exec@.len(),
                ls == text::view_all(ls_exec@),
                m0 == old(self).model(),
                lp <= i,
                rp <= i,
                self.wf(),
                self.same_frame(old(self)),
                model::assign_fold(model::start(m0), ls, calls) == model::assign_fold(
                    parse_of(self.model(), stack@, out@, lp, rp),
                    ls.skip(i as int),
                    calls,
                ),
            decreases ls_exec@.len() - i,
        {
            assert(ls.skip(i as int)[0] == ls_exec@[i as int]@);
            assert(ls.skip(i as int).drop_first() =~= ls.skip(i + 1));
            let ghost pb = parse_of(self.model(), stack@, out@, lp, rp);
            let r = self.assign_step(
                ls_exec[i].as_slice(),
                calls,
                &mut stack,
                &mut out,
                &mut lp,
                &mut rp,
            );
            if r.is_err() {
                assert(model::assign_fold(pb, ls.skip(i as int), calls) == model::assign_step(
                    pb,
                    ls_exec@[i as int]@,
                    calls,
                ));
                return match r {
                    Err(e) => Err(e),
                    Ok(_) => Ok((stack, out, lp, rp)),
                };
            }
            i = i + 1;
        }
        assert(ls.skip(i as int) =~= Seq::<Seq<char>>::empty());
        Ok((stack, out, lp, rp))
    }

    /// An assignment; a call in it is made only when `calls`.
    fn handle_assignment(&mut self, line: &[char], calls: bool) -> (r: CompilerResult<()>)
        requires
            old(self).wf(),
        ensures
            old(self).leads_to(
                *final(self),
                model::handle_assignment(old(self).model(), line@, calls),
                r,
            ),
        decreases (if calls {
            2nat
        } else {
            0nat
        }),
            2nat,
    {
        self.mark_ds3();
        let lex = split_syntax_chars(line);
        let (stack, out, lp, rp) = match self.read_assignment(&lex, calls) {
            Ok(x) => x,
            Err(e) => {
                return Err(e);
            },
        };
        if lp != rp {
            return Err(
                CompilerError::MismatchedParentheses {
                    line: self.current_line_index,
                    left: lp,
                    right: rp,
                },
            );
        }
        let last_is_value = stack.len() > 0 && operator_code_of(
            stack[stack.len() - 1].as_slice(),
        ).is_none();
        proof {
            if stack@.len() > 0 {
                assert(text::view_all(stack@).last() == stack@[stack@.len() - 1]@);
            }
        }
        let ghost so = text::view_all(stack@);
        let ghost oo = text::view_all(out@);
        let mut all = out;
        append_vecs(&mut all, &stack);
        assert(text::view_all(all@) =~= oo + so);
        let mut toks = self.encode_all(&all);
        if last_is_value {
            let z = chars_of("0000");
            proof {
                text::lemma_view_all_push(toks@, z);
            }
            toks.push(z);
        }
        self.emit_tokens(&toks)
    }

    /// Reads the words of an IF condition.
    fn read_condition(&mut self, ls_exec: &Vec<Vec<char>>) -> (r: Result<
        (Vec<Vec<char>>, Vec<Vec<char>>, usize, usize),
        CompilerError,
    >)
        requires
            old(self).wf(),
        ensures
            final(self).wf(),
            final(self).same_frame(old(self)),
            ({
                let q = model::if_fold(model::start(old(self).model()), text::view_all(ls_exec@));
                match r {
                    Ok((st, o, l, rr)) => q.1 is None && parse_of(final(self).model(), st@, o@, l, rr)
                        == q.0,
                    Err(e) => final(self).model() == q.0.m && (q.1 matches Some(f) && error_is(
                        e,
                        f,
                        old(self).current_line_index,
                    )),
                }
            }),
    {
        let ghost ls = text::view_all(ls_exec@);
        let ghost m0 = self.model();
        let mut stack: Vec<Vec<char>> = Vec::new();
        let mut out: Vec<Vec<char>> = Vec::new();
        let mut lp: usize = 0;
        let mut rp: usize = 0;
        let mut i: usize = 0;
        assert(ls.skip(0) =~= ls);
        assert(text::view_all(stack@) =~= Seq::<Seq<char>>::empty());
        assert(text::view_all(out@) =~= Seq::<Seq<char>>::empty());
        assert(parse_of(m0, stack@, out@, lp, rp) =~= model::start(m0));
        while i < ls_exec.len()
            invariant
                i <= ls_exec@.len(),
                ls == text::view_all(ls_exec@),
                m0 == old(self).model(),
                lp <= i,
                rp <= i,
                self.wf(),
                self.same_frame(old(self)),
                model::if_fold(model::start(m0), ls) == model::if_fold(
                    parse_of(self.model(), stack@, out@, lp, rp),
                    ls.skip(i as int),
                ),
            decreases ls_exec@.len() - i,
        {
            assert(ls.skip(i as int)[0] == ls_exec@[i as int]@);
            assert(ls.skip(i as int).drop_first() =~= ls.skip(i + 1));
            let ghost pb = parse_of(self.model(), stack@, out@, lp, rp);
            let r = self.if_step(ls_exec[i].as_slice(), &mut stack, &mut out, &mut lp, &mut rp);
            if r.is_err() {
                assert(model::if_fold(pb, ls.skip(i as int)) == model::if_step(
                    pb,
                    ls_exec@[i as int]@,
                ));
                return match r {
                    Err(e) => Err(e),
                    Ok(_) => Ok((stack, out, lp, rp)),
                };
            }
            i = i + 1;
        }
        assert(ls.skip(i as int) =~= Seq::<Seq<char>>::empty());
        Ok((stack, out, lp, rp))
    }

    /// Opens a block for IF: the next block number, and a new chain unless
    /// `chain`.
    fn open_block(&mut self, chain: bool)
        requires
            old(self).wf(),
        ensures
            final(self).wf(),
            final(self).same_frame(old(self)),
            final(self).model() == model::open_block(old(self).model(), chain),
    {
        self.ds3_detected = true;
        let nb: u16 = if self.state.next_block_address == 0xffff {
            0
        } else {
            self.state.next_block_address + 1
        };
        self.state.next_block_address = nb;
        self.state.current_block = nb;
        if !chain {
            self.awaiting_future_addr.push(Vec::new());
        }
        assert(self.model().awaiting =~= (if chain {
            old(self).model().awaiting
        } else {
            old(self).model().awaiting.push(Seq::empty())
        }));
    }

    /// The tokens of an IF condition, its block number last.
    fn condition_tokens(&mut self, stack: Vec<Vec<char>>, out: Vec<Vec<char>>) -> (toks: Vec<
        Vec<char>,
    >)
        requires
            old(self).wf(),
        ensures
            final(self).wf(),
            final(self).same_frame(old(self)),
            (final(self).model(), text::view_all(toks@)) == model::if_tokens(
                old(self).model(),
                text::view_all(stack@),
                text::view_all(out@),
            ),
    {
        let last: Vec<char> = if stack.len() == 1 {
            assert(text::view_all(stack@)[0] == stack@[0]@);
            to_vec(stack[0].as_slice())
        } else {
            let t = self.state.total_eval_registers;
            ParserState::register_name_chars(
                if t > 0 {
                    t - 1
                } else {
                    0
                },
            )
        };
        let ghost oo = text::view_all(out@);
        let ghost lv = last@;
        let mut all = out;
        let arr = [chars_of("IF"), last];
        assert(text::view_all(arr@) =~= seq!["IF"@, lv]);
        push_all(&mut all, &arr);
        let mut toks = self.encode_all(&all);
        let b = dec_to_hex_chars(self.state.current_block as usize);
        proof {
            text::lemma_view_all_push(toks@, b);
        }
        toks.push(b);
        toks
    }

    /// The end of IF once its condition is read.
    #[verifier::spinoff_prover]
    #[verifier::rlimit(40)]
    fn finish_if(&mut self, stack: Vec<Vec<char>>, out: Vec<Vec<char>>, lp: usize, rp: usize) -> (r:
        CompilerResult<()>)
        requires
            old(self).wf(),
        ensures
            old(self).leads_to(
                *final(self),
                model::finish_if(parse_of(old(self).model(), stack@, out@, lp, rp)),
                r,
            ),
    {
        if lp != rp {
            return Err(
                CompilerError::MismatchedParentheses {
                    line: self.current_line_index,
                    left: lp,
                    right: rp,
                },
            );
        }
        let toks = self.condition_tokens(stack, out);
        let r = self.emit_tokens(&toks);
        if r.is_err() {
            return r;
        }
        let ghost m3 = self.model();
        self.state.block_stack.push(self.state.current_block);
        assert(self.model() =~= model::push_block(m3));
        Ok(())
    }

    /// IF condition THEN.
    fn handle_if(&mut self, line: &[char], chain: bool) -> (r: CompilerResult<()>)
        requires
            old(self).wf(),
        ensures
            old(self).leads_to(*final(self), model::handle_if(old(self).model(), line@, chain), r),
    {
        self.open_block(chain);
        let lex = split_syntax_chars(line);
        let (stack, out, lp, rp) = match self.read_condition(&lex) {
            Ok(x) => x,
            Err(e) => {
                return Err(e);
            },
        };
        self.finish_if(stack, out, lp, rp)
    }

    /// Closes the innermost IF chain.
    fn close_if_chain(&mut self)
        requires
            old(self).wf(),
        ensures
            final(self).wf(),
            final(self).same_frame(old(self)),
            final(self).model() == model::close_if_chain(old(self).model()),
    {
        match self.awaiting_future_addr.pop() {
            None => {},
            Some(chain) => {
                let len = self.output_buffer.len();
                let dest = len / 2;
                let h = dec_to_hex_chars(dest);
                proof {
                    encoder::lemma_hex_digits_len(dest as nat);
                }
                let b0 = parse_hex_byte_chars(&h.as_slice()[0..2]);
                let b1 = parse_hex_byte_chars(&h.as_slice()[2..4]);
                assert(seq![b0, b1] == model::addr_bytes(len as nat / 2));
                patch_bytes(&mut self.output_buffer, &chain, b0, b1);
                assert(self.model() =~= model::close_if_chain(old(self).model()));
            },
        }
    }

    /// END_IF.
    fn handle_end_if(&mut self, close_chain: bool) -> (r: CompilerResult<()>)
        requires
            old(self).wf(),
        ensures
            old(self).leads_to(
                *final(self),
                model::ok(model::handle_end_if(old(self).model(), close_chain)),
                r,
            ),
    {
        self.mark_ds3();
        self.close_block();
        if close_chain {
            self.close_if_chain();
        }
        Ok(())
    }

    /// Closes the innermost block, if one is open.
    fn close_block(&mut self)
        requires
            old(self).wf(),
        ensures
            final(self).wf(),
            final(self).same_frame(old(self)),
            final(self).model() == (if old(self).model().blocks.len() > 0 {
                model::emit(
                    model::Model { blocks: old(self).model().blocks.drop_last(), ..old(self).model() },
                    seq![0x1Fu8, 0xF4u8] + model::addr_bytes(old(self).model().blocks.last() as nat),
                )
            } else {
                old(self).model()
            }),
    {
        match self.state.block_stack.pop() {
            Some(b) => {
                self.emit_bytes(&[0x1Fu8, 0xF4u8]);
                self.emit_addr(b as usize);
                assert([0x1Fu8, 0xF4u8]@ =~= seq![0x1Fu8, 0xF4u8]);
            },
            None => {},
        }
    }

    /// A jump to the end of the current chain, its target left for later.
    fn jump_to_chain_end(&mut self)
        requires
            old(self).wf(),
        ensures
            final(self).wf(),
            final(self).same_frame(old(self)),
            final(self).model() == model::jump_to_chain_end(old(self).model()),
    {
        self.mark_ds3();
        self.emit_bytes(&[0xF8u8, 0xF8u8, 0u8, 0u8]);
        assert([0xF8u8, 0xF8u8, 0u8, 0u8]@ =~= seq![0xF8u8, 0xF8u8, 0u8, 0u8]);
        let pos = self.output_buffer.len() - 2;
        match self.awaiting_future_addr.pop() {
            Some(mut last) => {
                last.push(pos);
                self.awaiting_future_addr.push(last);
            },
            None => {},
        }
        assert(self.model() =~= model::jump_to_chain_end(old(self).model()));
    }

    /// ELSE IF condition THEN.
    fn handle_else_if(&mut self, line: &[char]) -> (r: CompilerResult<()>)
        requires
            old(self).wf(),
        ensures
            old(self).leads_to(*final(self), model::handle_else_if(old(self).model(), line@), r),
    {
        self.jump_to_chain_end();
        let _ = self.handle_end_if(false);
        let a = chars_of("ELSE IF");
        let b = chars_of("IF");
        let converted = replace_all_chars(line, a.as_slice(), b.as_slice());
        self.handle_if(converted.as_slice(), true)
    }

    /// ELSE.
    fn handle_else(&mut self) -> (r: CompilerResult<()>)
        requires
            old(self).wf(),
        ensures
            old(self).leads_to(*final(self), model::handle_else(old(self).model()), r),
    {
        self.jump_to_chain_end();
        let _ = self.handle_end_if(false);
        let t = chars_of("IF TRUE THEN");
        self.handle_if(t.as_slice(), true)
    }

    /// WHILE condition.
    fn handle_while(&mut self, line: &[char]) -> (r: CompilerResult<()>)
        requires
            old(self).wf(),
        ensures
            old(self).leads_to(*final(self), model::handle_while(old(self).model(), line@), r),
    {
        self.mark_ds3();
        let nb: u16 = if self.state.next_block_address == 0xffff {
            0
        } else {
            self.state.next_block_address + 1
        };
        let label = while_label(nb);
        if self.state.label_map.contains_key(label.as_slice()) {
            return Err(
                CompilerError::DuplicateDefinition {
                    line: self.current_line_index,
                    name: string_of(label.as_slice()),
                },
            );
        }
        let pos = self.output_buffer.len();
        let _ = self.state.create_label_chars(label.as_slice(), pos);
        let a = chars_of("WHILE");
        let b = chars_of("IF");
        let converted = replace_all_chars(line, a.as_slice(), b.as_slice());
        self.handle_if(converted.as_slice(), false)
    }

    /// END_WHILE.
    fn handle_end_while(&mut self) -> (r: CompilerResult<()>)
        requires
            old(self).wf(),
        ensures
            old(self).leads_to(
                *final(self),
                model::ok(model::handle_end_while(old(self).model())),
                r,
            ),
    {
        self.mark_ds3();
        let n = self.state.block_stack.len();
        if n > 0 {
            let label = while_label(self.state.block_stack[n - 1]);
            match self.state.label_map.get(label.as_slice()) {
                Some(a) => {
                    self.emit_bytes(&[0xF8u8, 0xF8u8]);
                    self.emit_addr(a / 2);
                    assert([0xF8u8, 0xF8u8]@ =~= seq![0xF8u8, 0xF8u8]);
                    assert(self.model() =~= model::emit(
                        model::mark_ds3(old(self).model()),
                        seq![0xF8u8, 0xF8u8] + model::addr_bytes(a as nat / 2),
                    ));
                },
                None => {},
            }
        }
        self.handle_end_if(true)
    }

    /// RETURN value.
    fn handle_return(&mut self, line: &[char]) -> (r: CompilerResult<()>)
        requires
            old(self).wf(),
        ensures
            old(self).leads_to(*final(self), model::handle_return(old(self).model(), line@), r),
    {
        self.mark_ds3();
        self.return_defined = true;
        let a = chars_of("RETURN");
        let b = chars_of("VAR $_f_ret =");
        let converted = replace_all_chars(line, a.as_slice(), b.as_slice());
        let r = self.handle_assignment(converted.as_slice(), true);
        if r.is_err() {
            return r;
        }
        self.emit_bytes(&[0xFDu8, 0xFDu8]);
        assert([0xFDu8, 0xFDu8]@ =~= seq![0xFDu8, 0xFDu8]);
        Ok(())
    }

    /// FUNCTION name().
    fn handle_function_def(&mut self, line: &[char]) -> (r: CompilerResult<()>)
        requires
            old(self).wf(),
        ensures
            old(self).leads_to(
                *final(self),
                model::handle_function_def(old(self).model(), line@),
                r,
            ),
    {
        self.mark_ds3();
        if self.defining_function {
            return Err(
                CompilerError::SyntaxError {
                    line: self.current_line_index,
                    message: "Nested functions not allowed".to_string(),
                    column: None,
                    length: None,
                    suggestion: None,
                },
            );
        }
        self.defining_function = true;
        let p = split_words(line);
        if p.len() >= 2 {
            assert(text::view_all(p@)[1] == p@[1]@);
            let name = strip_all_suffix_chars(p[1].as_slice(), "()");
            let mut label = chars_of("function_");
            append_chars(&mut label, name.as_slice());
            if self.state.label_map.contains_key(label.as_slice()) {
                return Err(
                    CompilerError::DuplicateDefinition {
                        line: self.current_line_index,
                        name: string_of(label.as_slice()),
                    },
                );
            }
            let pos = self.output_buffer.len();
            let _ = self.state.create_label_chars(label.as_slice(), pos);
            let t = chars_of("IF FALSE THEN");
            return self.handle_if(t.as_slice(), false);
        }
        Ok(())
    }

    /// END_FUNCTION.
    fn handle_end_function(&mut self) -> (r: CompilerResult<()>)
        requires
            old(self).wf(),
        ensures
            old(self).leads_to(*final(self), model::handle_end_function(old(self).model()), r),
    {
        self.mark_ds3();
        if !self.return_defined {
            let t = chars_of("RETURN 0");
            let r = self.handle_return(t.as_slice());
            if r.is_err() {
                return r;
            }
        }
        self.return_defined = false;
        self.defining_function = false;
        self.handle_end_if(true)
    }
}

/// Writes `b0`, `b1` at each of the positions.
fn patch_bytes(out: &mut Vec<u8>, at: &Vec<usize>, b0: u8, b1: u8)
    ensures
        final(out)@ == model::patch(old(out)@, at@, seq![b0, b1]),
{
    let ghost o0 = out@;
    let len = out.len();
    let mut j: usize = 0;
    assert(at@.take(0) =~= Seq::<usize>::empty());
    while j < at.len()
        invariant
            j <= at@.len(),
            out@.len() == len,
            o0.len() == len,
            out@ == model::patch(o0, at@.take(j as int), seq![b0, b1]),
        decreases at@.len() - j,
    {
        assert(at@.take(j + 1).drop_last() =~= at@.take(j as int));
        assert(at@.take(j + 1).last() == at@[j as int]);
        let a = at[j];
        if a < len {
            out.set(a, b0);
            if a + 1 < len {
                out.set(a + 1, b1);
            }
        }
        j = j + 1;
    }
    assert(at@.take(j as int) =~= at@);
}

/// The label of the loop opened as block `n`.
fn while_label(n: u16) -> (r: Vec<char>)
    ensures
        r@ == model::while_label(n),
{
    let mut label = chars_of("generated_while_");
    let d = decimal_chars(n as u128);
    append_chars(&mut label, d.as_slice());
    label
}

/// The error for `)` with nothing before it.
fn EmptyExpression_at(line: usize) -> (e: CompilerError)
    ensures
        error_is(e, Fault::EmptyExpression, line),
{
    CompilerError::EmptyExpression { line }
}

/// Removes and returns the last element.
fn vec_pop(v: &mut Vec<Vec<char>>) -> (x: Vec<char>)
    requires
        old(v)@.len() > 0,
    ensures
        final(v)@ == old(v)@.drop_last(),
        x == old(v)@.last(),
        text::view_all(final(v)@) == text::view_all(old(v)@).drop_last(),
        x@ == text::view_all(old(v)@).last(),
{
    let x = v.pop().unwrap();
    assert(text::view_all(v@) =~= text::view_all(old(v)@).drop_last());
    x
}

/// Appends each of `items`.
fn push_all(v: &mut Vec<Vec<char>>, items: &[Vec<char>])
    ensures
        text::view_all(final(v)@) == text::view_all(old(v)@) + text::view_all(items@),
{
    let mut i: usize = 0;
    while i < items.len()
        invariant
            i <= items@.len(),
            text::view_all(v@) == text::view_all(old(v)@) + text::view_all(items@).take(i as int),
        decreases items@.len() - i,
    {
        let x = to_vec(items[i].as_slice());
        proof {
            text::lemma_view_all_push(v@, x);
        }
        v.push(x);
        assert(text::view_all(items@).take(i + 1) =~= text::view_all(items@).take(i as int).push(
            items@[i as int]@,
        ));
        assert(text::view_all(old(v)@) + text::view_all(items@).take(i + 1) =~= (text::view_all(
            old(v)@,
        ) + text::view_all(items@).take(i as int)).push(items@[i as int]@));
        i = i + 1;
    }
    assert(text::view_all(items@).take(i as int) =~= text::view_all(items@));
}

/// Appends each element of `b`.
fn append_vecs(a: &mut Vec<Vec<char>>, b: &Vec<Vec<char>>)
    ensures
        text::view_all(final(a)@) == text::view_all(old(a)@) + text::view_all(b@),
{
    push_all(a, b.as_slice());
}

/// `s` without every trailing repetition of `p`.
fn strip_all_suffix_chars(s: &[char], p: &str) -> (r: Vec<char>)
    ensures
        r@ == model::strip_all_suffix(s@, p@),
{
    let n = p.unicode_len();
    let mut end: usize = s.len();
    assert(s@.take(end as int) =~= s@);
    while n > 0 && end >= n && ends_with_str(&s[0..end], p)
        invariant
            end <= s@.len(),
            n == p@.len(),
            model::strip_all_suffix(s@, p@) == model::strip_all_suffix(s@.take(end as int), p@),
        decreases end,
    {
        assert(s@.take(end as int).take(end - n) =~= s@.take(end - n));
        assert(s@.subrange(0, end as int) =~= s@.take(end as int));
        end = end - n;
    }
    proof {
        assert(s@.subrange(0, end as int) =~= s@.take(end as int));
        if n > 0 && end < n {
            assert(!text::ends_with(s@.take(end as int), p@));
        }
    }
    to_vec(&s[0..end])
}

/// What ATTACKMODE has read so far.
struct AttackAcc {
    toks: Vec<Vec<char>>,
    mode: u16,
    mode_defined: bool,
    vid: bool,
    pid: bool,
    man: bool,
    prod: bool,
    serial: bool,
}

spec fn attack_view(a: &AttackAcc) -> model::Attack {
    model::Attack {
        toks: text::view_all(a.toks@),
        mode: a.mode,
        mode_defined: a.mode_defined,
        vid: a.vid,
        pid: a.pid,
        man: a.man,
        prod: a.prod,
        serial: a.serial,
    }
}

/// ASCII case-insensitive equality.
fn eq_ic(a: &[char], b: &str) -> (r: bool)
    ensures
        r == model::eq_ic(a@, b@),
{
    reveal(model::eq_ic);
    let bc = chars_of(b);
    let la = lower_chars(a);
    let lb = lower_chars(bc.as_slice());
    eq_chars(la.as_slice(), lb.as_slice())
}

/// Whether `w` in ASCII upper case starts with `p`.
fn starts_ic(w: &[char], p: &str) -> (r: bool)
    ensures
        r == model::starts_ic(w@, p@),
        r ==> w@.len() >= p@.len(),
{
    reveal(model::starts_ic);
    let u = upper_chars(w);
    assert(u@.len() == w@.len());
    starts_with_str(u.as_slice(), p)
}

/// Whether every character is an ASCII digit.
fn all_ascii_digits(s: &[char]) -> (r: bool)
    ensures
        r == (forall|k: int| 0 <= k < s@.len() ==> text::is_ascii_digit(#[trigger] s@[k])),
{
    let mut i: usize = 0;
    while i < s.len()
        invariant
            i <= s@.len(),
            forall|k: int| 0 <= k < i ==> text::is_ascii_digit(#[trigger] s@[k]),
        decreases s@.len() - i,
    {
        if !(s[i] >= '0' && s[i] <= '9') {
            return false;
        }
        i = i + 1;
    }
    true
}

impl DuckyCompiler {
    /// The addresses of the variables of the characters of `s`.
    fn char_vars(&mut self, s: &[char]) -> (toks: Vec<Vec<char>>)
        requires
            old(self).wf(),
        ensures
            final(self).wf(),
            final(self).same_frame(old(self)),
            (final(self).model(), text::view_all(toks@)) == model::char_vars(old(self).model(), s@),
    {
        let mut toks: Vec<Vec<char>> = Vec::new();
        let mut i: usize = 0;
        assert(s@.take(0) =~= Seq::<char>::empty());
        assert(text::view_all(toks@) =~= Seq::<Seq<char>>::empty());
        while i < s.len()
            invariant
                i <= s@.len(),
                self.wf(),
                self.same_frame(old(self)),
                (self.model(), text::view_all(toks@)) == model::char_vars(
                    old(self).model(),
                    s@.take(i as int),
                ),
            decreases s@.len() - i,
        {
            assert(s@.take(i + 1).drop_last() =~= s@.take(i as int));
            assert(s@.take(i + 1).last() == s@[i as int]);
            let v = hex_encode_chars((s[i] as u32) as u16);
            let mut name = chars_of("__CHAR_");
            append_chars(&mut name, v.as_slice());
            let a = self.ensure_var(name.as_slice(), v);
            let t = dec_to_hex_chars(a);
            proof {
                text::lemma_view_all_push(toks@, t);
            }
            toks.push(t);
            i = i + 1;
        }
        assert(s@.take(i as int) =~= s@);
        toks
    }

    /// One word of an ATTACKMODE line; gives where reading goes on.
    #[verifier::spinoff_prover]
    #[verifier::rlimit(100)]
    fn attack_step(&mut self, acc: &mut AttackAcc, parts: &Vec<Vec<char>>, i: usize) -> (r: (
        CompilerResult<()>,
        usize,
    ))
        requires
            old(self).wf(),
            i < parts@.len(),
        ensures
            ({
                let q = model::attack_step(
                    old(self).model(),
                    attack_view(old(acc)),
                    text::view_all(parts@),
                    i as int,
                );
                &&& final(self).wf()
                &&& final(self).same_frame(old(self))
                &&& final(self).model() == q.0
                &&& attack_view(final(acc)) == q.1
                &&& result_is(r.0, (q.0, q.2), old(self).current_line_index)
                &&& r.1 == q.3
            }),
    {
        let ghost ps = text::view_all(parts@);
        assert(ps[i as int] == parts@[i as int]@);
        proof {
            reveal_strlit("VID_$");
            reveal_strlit("PID_$");
            reveal_strlit("VID_");
            reveal_strlit("PID_");
        }
        let w = parts[i].as_slice();
        let n = parts.len();
        if eq_ic(w, "ATTACKMODE") {
            if i + 1 >= n {
                return (Ok(()), n);
            }
            let next = mode_words(acc, parts, i + 1);
            return (Ok(()), next);
        }
        if eq_ic(w, "VID_RANDOM") {
            self.push_pair(acc, 0xF5F5, 0x42F3);
            acc.vid = true;
            return (Ok(()), i + 1);
        }
        if starts_ic(w, "VID_$") {
            acc.vid = true;
            return self.id_var_setting(acc, 0xF5F5, &w[4..w.len()], i);
        }
        if starts_ic(w, "VID_") {
            let r = self.hex_id_word(acc, &w[4..w.len()], true);
            return (r, i + 1);
        }
        if eq_ic(w, "PID_RANDOM") {
            self.push_pair(acc, 0xF6F6, 0x42F3);
            acc.pid = true;
            return (Ok(()), i + 1);
        }
        if starts_ic(w, "PID_$") {
            acc.pid = true;
            return self.id_var_setting(acc, 0xF6F6, &w[4..w.len()], i);
        }
        if starts_ic(w, "PID_") {
            let r = self.hex_id_word(acc, &w[4..w.len()], false);
            return (r, i + 1);
        }
        let r = self.string_word(acc, w);
        (r, i + 1)
    }

    /// A VID_/PID_ setting given in hex.
    #[verifier::spinoff_prover]
    #[verifier::rlimit(40)]
    fn hex_id_word(&mut self, acc: &mut AttackAcc, arg: &[char], vid: bool) -> (r: CompilerResult<()>)
        requires
            old(self).wf(),
        ensures
            ({
                let q = model::hex_id_word(old(self).model(), attack_view(old(acc)), arg@, vid);
                &&& final(self).wf()
                &&& final(self).same_frame(old(self))
                &&& final(self).model() == q.0
                &&& attack_view(final(acc)) == q.1
                &&& result_is(r, (q.0, q.2), old(self).current_line_index)
            }),
    {
        if arg.len() == 0 {
            let msg = if vid {
                "Invalid VID"
            } else {
                "Invalid PID"
            };
            return Err(syntax_error(self.current_line_index, msg));
        }
        self.id_setting(acc, if vid {
            0xF5F5
        } else {
            0xF6F6
        }, arg);
        if vid {
            acc.vid = true;
        } else {
            acc.pid = true;
        }
        Ok(())
    }

    /// Appends the tokens of two codes.
    fn push_pair(&self, acc: &mut AttackAcc, x: u16, y: u16)
        ensures
            attack_view(final(acc)) == (model::Attack {
                toks: attack_view(old(acc)).toks + seq![
                    encoder::hex_encode_spec(x),
                    encoder::hex_encode_spec(y),
                ],
                ..attack_view(old(acc))
            }),
    {
        let t1 = hex_encode_chars(x);
        let t2 = hex_encode_chars(y);
        let ghost (v1, v2) = (t1@, t2@);
        let arr = [t1, t2];
        assert(text::view_all(arr@) =~= seq![v1, v2]);
        push_all(&mut acc.toks, &arr);
    }

    /// A VID_$var/PID_$var setting.
    fn id_var_setting(&self, acc: &mut AttackAcc, marker: u16, var: &[char], i: usize) -> (r: (
        CompilerResult<()>,
        usize,
    ))
        requires
            i < usize::MAX,
        ensures
            ({
                let q = model::id_var_setting(self.model(), attack_view(old(acc)), marker, var@);
                &&& attack_view(final(acc)) == q.0
                &&& result_is(r.0, (self.model(), q.1), self.current_line_index)
                &&& r.1 == i + 1
            }),
    {
        let t = hex_encode_chars(marker);
        proof {
            text::lemma_view_all_push(acc.toks@, t);
        }
        acc.toks.push(t);
        match self.state.get_var_address_chars(var) {
            Some(a) => {
                let h = dec_to_hex_chars(a);
                proof {
                    text::lemma_view_all_push(acc.toks@, h);
                }
                acc.toks.push(h);
                (Ok(()), i + 1)
            },
            None => (
                Err(CompilerError::UnknownVariable { line: self.current_line_index, name: string_of(var) }),
                i + 1,
            ),
        }
    }

    /// A VID_/PID_ setting given in hex.
    fn id_setting(&mut self, acc: &mut AttackAcc, marker: u16, arg: &[char])
        requires
            old(self).wf(),
        ensures
            ({
                let q = model::id_setting(old(self).model(), attack_view(old(acc)), marker, arg@);
                &&& final(self).wf()
                &&& final(self).same_frame(old(self))
                &&& final(self).model() == q.0
                &&& attack_view(final(acc)) == q.1
            }),
    {
        let f = format_hex_chars(arg);
        let f2 = to_vec(f.as_slice());
        let a = self.ensure_var(f.as_slice(), f2);
        let t1 = hex_encode_chars(marker);
        let t2 = dec_to_hex_chars(a);
        let ghost (v1, v2) = (t1@, t2@);
        let arr = [t1, t2];
        assert(text::view_all(arr@) =~= seq![v1, v2]);
        push_all(&mut acc.toks, &arr);
    }

    /// Appends a random string setting.
    fn push_random(&self, acc: &mut AttackAcc, marker: u16, class: u16)
        ensures
            attack_view(final(acc)) == (model::Attack {
                toks: attack_view(old(acc)).toks + model::random_string(marker, class),
                ..attack_view(old(acc))
            }),
    {
        let m = hex_encode_chars(marker);
        let c = hex_encode_chars(class);
        let mut v: Vec<Vec<char>> = Vec::new();
        let mut k: usize = 0;
        let m2 = to_vec(m.as_slice());
        proof {
            text::lemma_view_all_push(v@, m2);
        }
        v.push(m2);
        assert(model::repeat_token(c@, 0) =~= Seq::<Seq<char>>::empty());
        assert(text::view_all(v@) =~= seq![m@] + model::repeat_token(c@, 0));
        while k < 12
            invariant
                k <= 12,
                text::view_all(v@) == seq![m@] + model::repeat_token(c@, k as nat),
            decreases 12 - k,
        {
            let c2 = to_vec(c.as_slice());
            proof {
                text::lemma_view_all_push(v@, c2);
            }
            v.push(c2);
            assert(model::repeat_token(c@, (k + 1) as nat) =~= model::repeat_token(c@, k as nat).push(
                c@,
            ));
            k = k + 1;
        }
        proof {
            text::lemma_view_all_push(v@, m);
        }
        v.push(m);
        assert(text::view_all(v@) =~= model::random_string(marker, class));
        append_vecs(&mut acc.toks, &v);
    }

    /// Appends a string setting: the marker, the characters' variables, the marker.
    fn string_setting(&mut self, acc: &mut AttackAcc, marker: u16, arg: &[char])
        requires
            old(self).wf(),
        ensures
            final(self).wf(),
            final(self).same_frame(old(self)),
            (final(self).model(), attack_view(final(acc))) == model::string_setting(
                old(self).model(),
                attack_view(old(acc)),
                marker,
                arg@,
            ),
    {
        let ghost t0 = text::view_all(acc.toks@);
        let t = self.char_vars(arg);
        let mk = hex_encode_chars(marker);
        let mk2 = to_vec(mk.as_slice());
        proof {
            text::lemma_view_all_push(acc.toks@, mk2);
        }
        acc.toks.push(mk2);
        append_vecs(&mut acc.toks, &t);
        proof {
            text::lemma_view_all_push(acc.toks@, mk);
        }
        acc.toks.push(mk);
        assert(text::view_all(acc.toks@) =~= t0 + seq![encoder::hex_encode_spec(marker)]
            + text::view_all(t@) + seq![encoder::hex_encode_spec(marker)]);
    }

    /// The MAN_, PROD_ and SERIAL_ words of an ATTACKMODE line.
    #[verifier::spinoff_prover]
    #[verifier::rlimit(100)]
    fn string_word(&mut self, acc: &mut AttackAcc, w: &[char]) -> (r: CompilerResult<()>)
        requires
            old(self).wf(),
        ensures
            ({
                let q = model::string_word(old(self).model(), attack_view(old(acc)), w@);
                &&& final(self).wf()
                &&& final(self).same_frame(old(self))
                &&& final(self).model() == q.0
                &&& attack_view(final(acc)) == q.1
                &&& result_is(r, (q.0, q.2), old(self).current_line_index)
            }),
    {
        proof {
            reveal_strlit("MAN_");
            reveal_strlit("PROD_");
            reveal_strlit("SERIAL_");
        }
        if eq_ic(w, "MAN_RANDOM") {
            self.random_word(acc, 0xF9F9, 0x42F5, 0);
            return Ok(());
        }
        if starts_ic(w, "MAN_") {
            return self.setting_word(acc, &w[4..w.len()], 0xF9F9, 32, false, "Invalid Manufacturer", 0);
        }
        if eq_ic(w, "PROD_RANDOM") {
            self.random_word(acc, 0xFAFA, 0x42F5, 1);
            return Ok(());
        }
        if starts_ic(w, "PROD_") {
            return self.setting_word(acc, &w[5..w.len()], 0xFAFA, 32, false, "Invalid Product", 1);
        }
        if eq_ic(w, "SERIAL_RANDOM") {
            self.random_word(acc, 0xFBFB, 0x42F7, 2);
            return Ok(());
        }
        if starts_ic(w, "SERIAL_") {
            return self.setting_word(acc, &w[7..w.len()], 0xFBFB, 12, true, "Invalid Serial", 2);
        }
        Ok(())
    }

    /// A random string setting of kind `k`.
    fn random_word(&self, acc: &mut AttackAcc, marker: u16, class: u16, k: u8)
        ensures
            attack_view(final(acc)) == model::random_word(attack_view(old(acc)), marker, class, k as nat),
    {
        self.push_random(acc, marker, class);
        if k == 0 {
            acc.man = true;
        } else if k == 1 {
            acc.prod = true;
        } else {
            acc.serial = true;
        }
    }

    /// A string setting of kind `k` with its value.
    fn setting_word(
        &mut self,
        acc: &mut AttackAcc,
        arg: &[char],
        marker: u16,
        limit: usize,
        digits: bool,
        msg: &str,
        k: u8,
    ) -> (r: CompilerResult<()>)
        requires
            old(self).wf(),
        ensures
            ({
                let q = model::setting_word(
                    old(self).model(),
                    attack_view(old(acc)),
                    arg@,
                    marker,
                    limit as nat,
                    digits,
                    msg@,
                    k as nat,
                );
                &&& final(self).wf()
                &&& final(self).same_frame(old(self))
                &&& final(self).model() == q.0
                &&& attack_view(final(acc)) == q.1
                &&& result_is(r, (q.0, q.2), old(self).current_line_index)
            }),
    {
        if arg.len() == 0 || text::utf8_longer(arg, limit) || (digits && !all_ascii_digits(arg)) {
            return Err(syntax_error(self.current_line_index, msg));
        }
        self.string_setting(acc, marker, arg);
        if k == 0 {
            acc.man = true;
        } else if k == 1 {
            acc.prod = true;
        } else {
            acc.serial = true;
        }
        Ok(())
    }

    /// ATTACKMODE mode and identity.
    fn handle_attackmode(&mut self, line: &[char]) -> (r: CompilerResult<()>)
        requires
            old(self).wf(),
        ensures
            old(self).leads_to(*final(self), model::handle_attackmode(old(self).model(), line@), r),
    {
        self.mark_ds3();
        let parts = split_words(line);
        if parts.len() < 2 {
            return Ok(());
        }
        let ghost ps = text::view_all(parts@);
        let ghost m0 = self.model();
        let mut acc = AttackAcc {
            toks: Vec::new(),
            mode: 0,
            mode_defined: false,
            vid: false,
            pid: false,
            man: false,
            prod: false,
            serial: false,
        };
        assert(text::view_all(acc.toks@) =~= Seq::<Seq<char>>::empty());
        assert(attack_view(&acc) =~= model::no_attack());
        let mut i: usize = 0;
        while i < parts.len()
            invariant
                ps == text::view_all(parts@),
                ps == text::words(line@),
                ps.len() >= 2,
                m0 == model::mark_ds3(old(self).model()),
                self.wf(),
                self.same_frame(old(self)),
                model::attack_from(m0, model::no_attack(), ps, 0) == model::attack_from(
                    self.model(),
                    attack_view(&acc),
                    ps,
                    i as int,
                ),
            decreases parts@.len() - i,
        {
            let (res, j) = self.attack_step(&mut acc, &parts, i);
            if res.is_err() {
                return res;
            }
            i = if j <= i || j > parts.len() {
                parts.len()
            } else {
                j
            };
        }
        if acc.mode_defined {
            let t = hex_encode_chars(acc.mode);
            proof {
                text::lemma_view_all_push(acc.toks@, t);
            }
            acc.toks.push(t);
        }
        let line_no = self.current_line_index;
        if (acc.vid || acc.pid) && !(acc.vid && acc.pid) {
            return Err(syntax_error(line_no, "VID + PID must both be defined"));
        }
        if (acc.man || acc.prod || acc.serial) && !(acc.man && acc.prod && acc.serial) {
            return Err(syntax_error(line_no, "MAN + PROD + SERIAL must all be defined"));
        }
        self.emit_tokens(&acc.toks)
    }
}

/// The mode words after ATTACKMODE at position `j`; gives where reading
/// goes on.
fn mode_words(acc: &mut AttackAcc, parts: &Vec<Vec<char>>, j: usize) -> (next: usize)
    requires
        j < parts@.len(),
    ensures
        (attack_view(final(acc)), next as int) == model::mode_step(
            attack_view(old(acc)),
            text::view_all(parts@),
            j as int,
        ),
{
    let ghost ps = text::view_all(parts@);
    assert(ps[j as int] == parts@[j as int]@);
    let n = parts.len();
    let mode = parts[j].as_slice();
    let v: u16;
    let next: usize;
    proof {
        if j + 1 < n {
            assert(ps[j + 1] == parts@[j + 1]@);
        }
    }
    if eq_ic(mode, "OFF") {
        v = 0xF0F0;
        next = n;
    } else if eq_ic(mode, "HID") {
        if j + 1 < n && eq_ic(parts[j + 1].as_slice(), "STORAGE") {
            v = 0xF3F3;
            next = j + 2;
        } else {
            v = 0xF1F1;
            next = j + 1;
        }
    } else if eq_ic(mode, "STORAGE") {
        if j + 1 < n && eq_ic(parts[j + 1].as_slice(), "HID") {
            v = 0xF3F3;
            next = j + 2;
        } else {
            v = 0xF2F2;
            next = j + 1;
        }
    } else {
        return j + 1;
    }
    acc.mode = v;
    acc.mode_defined = true;
    let t = hex_encode_chars(v);
    proof {
        text::lemma_view_all_push(acc.toks@, t);
    }
    acc.toks.push(t);
    next
}

/// A syntax error at `line`.
fn syntax_error(line: usize, msg: &str) -> (e: CompilerError)
    ensures
        error_is(e, Fault::Syntax(msg@), line),
{
    CompilerError::SyntaxError {
        line,
        message: msg.to_string(),
        column: None,
        length: None,
        suggestion: None,
    }
}

/// `s` without up to `k` leading indents of four spaces.
fn strip_indent(s: &[char], k: usize) -> (r: Vec<char>)
    ensures
        r@ == model::strip_indent(s@, k as nat),
{
    let mut start: usize = 0;
    let mut j: usize = 0;
    assert(s@.skip(0) =~= s@);
    while j < k
        invariant
            j <= k,
            start <= s@.len(),
            model::strip_indent(s@, k as nat) == model::strip_indent(s@.skip(start as int), (k - j) as nat),
        decreases k - j,
    {
        let rest = &s[start..s.len()];
        assert(rest@ =~= s@.skip(start as int));
        if starts_with_str(rest, "    ") {
            proof {
                reveal_strlit("    ");
                assert(s@.skip(start as int).skip(4) =~= s@.skip(start + 4));
            }
            start = start + 4;
        }
        j = j + 1;
    }
    to_vec(&s[start..s.len()])
}

/// One more than the number of leading indents of four spaces.
fn indent_level(s: &[char]) -> (r: usize)
    ensures
        r == model::indent_level(s@),
{
    let mut start: usize = 0;
    let mut level: usize = 1;
    assert(s@.skip(0) =~= s@);
    proof {
        reveal_strlit("    ");
    }
    while s.len() - start >= 4 && starts_with_str(&s[start..s.len()], "    ")
        invariant
            start <= s@.len(),
            level <= start / 4 + 1,
            model::indent_level(s@) == level - 1 + model::indent_level(s@.skip(start as int)),
        decreases s@.len() - start,
    {
        assert(s@.subrange(start as int, s@.len() as int) =~= s@.skip(start as int));
        assert(s@.skip(start as int).skip(4) =~= s@.skip(start + 4));
        start = start + 4;
        level = level + 1;
    }
    proof {
        assert(s@.subrange(start as int, s@.len() as int) =~= s@.skip(start as int));
    }
    level
}

impl DuckyCompiler {
    /// A line inside a STRING or STRINGLN block.
    fn string_block_line(&mut self, line: &[char]) -> (r: CompilerResult<()>)
        requires
            old(self).wf(),
        ensures
            old(self).leads_to(*final(self), model::string_block_line(old(self).model(), line@), r),
    {
        if is_end_string_chars(trim_chars(line)) {
            self.inside_string_block = false;
            self.inside_stringln_block = false;
            self.string_block_indentation_level = 1;
            self.preserve_leading_space = false;
            return Ok(());
        }
        let content = if self.inside_string_block && !self.preserve_leading_space {
            to_vec(trim_start_chars(line))
        } else {
            strip_indent(line, self.string_block_indentation_level)
        };
        let ln = self.inside_stringln_block;
        let r = self.inject_chars(content.as_slice());
        if r.is_ok() && ln {
            let enter = chars_of("ENTER");
            return self.inject_character(enter.as_slice());
        }
        r
    }

    /// One line of the program.
    fn process_line(&mut self, line: &[char]) -> (r: CompilerResult<()>)
        requires
            old(self).wf(),
        ensures
            old(self).leads_to(*final(self), model::process_line(old(self).model(), line@), r),
        decreases 1nat, line@.len(), 0nat, 2nat,
    {
        let t = trim_chars(line);
        if t.len() == 0 {
            return Ok(());
        }
        if self.inside_rem_block {
            if is_end_rem_block_chars(t) {
                self.inside_rem_block = false;
            }
            return Ok(());
        }
        if self.inside_string_block || self.inside_stringln_block {
            return self.string_block_line(line);
        }
        let tok = tokenize_trimmed_chars(t);
        if is_command_token(&tok) {
            self.last_command = to_vec(line);
        }
        self.dispatch(line, tok)
    }

    /// The remembered command, run once more by a bare REPEAT.
    fn replay_line(&mut self, line: &[char]) -> (r: CompilerResult<()>)
        requires
            old(self).wf(),
        ensures
            old(self).leads_to(*final(self), model::replay_line(old(self).model(), line@), r),
        decreases 0nat, line@.len(), 0nat, 2nat,
    {
        let t = trim_chars(line);
        if t.len() == 0 {
            return Ok(());
        }
        if self.inside_rem_block {
            if is_end_rem_block_chars(t) {
                self.inside_rem_block = false;
            }
            return Ok(());
        }
        if self.inside_string_block || self.inside_stringln_block {
            return self.string_block_line(line);
        }
        let tok = tokenize_trimmed_chars(t);
        match tok {
            TokenType::Repeat => Ok(()),
            _ => self.dispatch(line, tok),
        }
    }

    /// REPEAT n command.
    fn handle_repeat(&mut self, line: &[char]) -> (r: CompilerResult<()>)
        requires
            old(self).wf(),
        ensures
            old(self).leads_to(*final(self), model::handle_repeat(old(self).model(), line@), r),
        decreases 1nat, line@.len(), 0nat, 0nat,
    {
        let p = split_words(line);
        if p.len() < 2 {
            return Ok(());
        }
        assert(text::view_all(p@)[1] == p@[1]@);
        let count = match parse_unsigned_chars(p[1].as_slice(), usize::MAX as u64) {
            Some(c) => c as usize,
            None => {
                return Ok(());
            },
        };
        let ghost m0 = self.model();
        let mut k: usize = 0;
        if p.len() == 2 {
            let cmd = to_vec(self.last_command.as_slice());
            while k < count
                invariant
                    k <= count,
                    m0 == old(self).model(),
                    cmd@ == m0.last_command,
                    text::words(line@).len() == 2,
                    numbers::parse_unsigned(text::words(line@)[1], usize::MAX as nat) == Some(
                        count as nat,
                    ),
                    self.wf(),
                    self.same_frame(old(self)),
                    model::replay_n(m0, cmd@, count as nat) == model::replay_n(
                        self.model(),
                        cmd@,
                        (count - k) as nat,
                    ),
                decreases count - k,
            {
                let r = self.replay_line(cmd.as_slice());
                if r.is_err() {
                    return r;
                }
                k = k + 1;
            }
            return Ok(());
        }
        let rest = to_vec_words(&p, 2);
        let rem = join_words_chars(&rest);
        assert(text::view_all(p@)[1] == p@[1]@);
        proof {
            model::lemma_repeat_shorter(line@);
        }
        while k < count
            invariant
                k <= count,
                rem@.len() + 2 <= line@.len(),
                m0 == old(self).model(),
                text::words(line@).len() >= 3,
                rem@ == preprocessor::join_words(text::words(line@).skip(2)),
                numbers::parse_unsigned(text::words(line@)[1], usize::MAX as nat) == Some(
                    count as nat,
                ),
                self.wf(),
                self.same_frame(old(self)),
                model::repeat_n(m0, rem@, count as nat) == model::repeat_n(
                    self.model(),
                    rem@,
                    (count - k) as nat,
                ),
            decreases count - k,
        {
            let r = self.process_line(rem.as_slice());
            if r.is_err() {
                return r;
            }
            k = k + 1;
        }
        Ok(())
    }

    /// A command, by its kind.
    #[verifier::spinoff_prover]
    fn dispatch(&mut self, line: &[char], t: TokenType) -> (r: CompilerResult<()>)
        requires
            old(self).wf(),
        ensures
            old(self).leads_to(*final(self), model::dispatch(old(self).model(), line@, t), r),
        decreases (if t is Repeat { 1nat } else { 0nat }), line@.len(), 0nat, 1nat,
    {
        match t {
            TokenType::RemBlock => {
                self.inside_rem_block = true;
                Ok(())
            },
            TokenType::EndRemBlock => {
                self.inside_rem_block = false;
                Ok(())
            },
            TokenType::Delay => self.handle_delay(line),
            TokenType::DelayVar => self.handle_var_command(line, 0xE9E7),
            TokenType::DefaultDelay => self.handle_default_delay(line),
            TokenType::StringDelay => self.handle_string_delay(line),
            TokenType::String => self.handle_string(line),
            TokenType::StringLn => self.handle_stringln(line),
            TokenType::StringBlock => {
                let u = upper_chars(line);
                self.inside_string_block = true;
                self.preserve_leading_space = contains_str(u.as_slice(), "PYTHON");
                self.string_block_indentation_level = indent_level(line);
                Ok(())
            },
            TokenType::StringLnBlock => {
                self.inside_stringln_block = true;
                self.preserve_leading_space = false;
                self.string_block_indentation_level = indent_level(line);
                Ok(())
            },
            TokenType::EndString => {
                self.inside_string_block = false;
                self.inside_stringln_block = false;
                self.string_block_indentation_level = 1;
                self.preserve_leading_space = false;
                Ok(())
            },
            TokenType::If => self.handle_if(line, false),
            TokenType::ElseIf => self.handle_else_if(line),
            TokenType::Else => self.handle_else(),
            TokenType::EndIf => self.handle_end_if(true),
            TokenType::While => self.handle_while(line),
            TokenType::EndWhile => self.handle_end_while(),
            TokenType::Assignment => self.handle_assignment(line, true),
            TokenType::Declaration => self.handle_assignment(line, true),
            TokenType::Function => self.handle_function_def(line),
            TokenType::EndFunction => self.handle_end_function(),
            TokenType::FunctionCall => self.handle_function_call(line),
            TokenType::Return => self.handle_return(line),
            TokenType::Enter => {
                let e = chars_of("ENTER");
                self.inject_character(e.as_slice())
            },
            TokenType::Repeat => self.handle_repeat(line),
            TokenType::Hold => self.handle_hold(line),
            TokenType::Release => self.handle_release(line),
            TokenType::Inject => self.handle_inject(line),
            TokenType::InjectMod => self.handle_inject_mod(line),
            TokenType::InjectVar => self.handle_var_command(line, 0xE9E9),
            TokenType::Keycode => self.handle_inject(line),
            TokenType::ExfilVar => self.handle_exfil(line),
            TokenType::ModKeyDown => self.handle_two_operands(line, 0xEA0D),
            TokenType::ModKeyUp => self.handle_two_operands(line, 0xEA0E),
            TokenType::KeyDown => self.handle_one_operand(line, 0xEA0A),
            TokenType::KeyUp => self.handle_one_operand(line, 0xEA0B),
            TokenType::ModDown => self.handle_one_operand(line, 0xEA0C),
            TokenType::ModUp => self.handle_one_operand(line, 0xEA0F),
            TokenType::Modifier => self.handle_modifier(line),
            TokenType::ButtonDef => self.handle_button_def(),
            TokenType::EndButtonDef => self.handle_end_button_def(),
            TokenType::Attackmode => self.handle_attackmode(line),
            TokenType::RandomLowercaseLetter => self.handle_random(0x42FA),
            TokenType::RandomUppercaseLetter => self.handle_random(0x42FB),
            TokenType::RandomNumber => self.handle_random(0x42FC),
            TokenType::RandomLetter => self.handle_random(0x42FF),
            TokenType::RandomSpecial => self.handle_random(0x42FD),
            TokenType::RandomChar => self.handle_random(0x42FE),
            TokenType::Breakpoint => self.handle_breakpoint(),
            TokenType::InjectBreakpointLineNumber => self.handle_inject_line_number(),
            TokenType::Unknown => self.handle_unknown(line),
            _ => Ok(()),
        }
    }
}

/// The source without carriage returns.
fn remove_cr(s: &[char]) -> (r: Vec<char>)
    ensures
        r@ == model::sanitize(s@),
{
    let mut r: Vec<char> = Vec::new();
    let mut i: usize = 0;
    assert(s@.take(0) =~= Seq::<char>::empty());
    while i < s.len()
        invariant
            i <= s@.len(),
            r@ == model::sanitize(s@.take(i as int)),
        decreases s@.len() - i,
    {
        proof {
            assert(s@.take(i + 1).drop_last() =~= s@.take(i as int));
            reveal_with_fuel(Seq::<char>::filter, 1);
        }
        if s[i] != '\r' {
            r.push(s[i]);
        }
        i = i + 1;
    }
    assert(s@.take(i as int) =~= s@);
    r
}

/// Only the shift modulo 65536 matters to relocation.
proof fn lemma_relocate_mod(b: Seq<u8>, i: int, s1: nat, s2: nat)
    requires
        s1 % 65536 == s2 % 65536,
    ensures
        model::relocate(b, i, s1) == model::relocate(b, i, s2),
    decreases b.len() - i,
{
    if i < 0 || i + 4 > b.len() {
    } else if (b[i] == 0xF8 && b[i + 1] == 0xF8) || (b[i] == 0xF7 && b[i + 1] == 0xF7) {
        let x = b[i + 2] as nat * 256 + b[i + 3] as nat;
        vstd::arithmetic::div_mod::lemma_add_mod_noop_right(x as int, s1 as int, 65536);
        vstd::arithmetic::div_mod::lemma_add_mod_noop_right(x as int, s2 as int, 65536);
        let v = (x + s1) % 65536;
        lemma_relocate_mod(b.update(i + 2, (v % 256) as u8).update(i + 3, (v / 256) as u8), i + 4, s1, s2);
    } else {
        lemma_relocate_mod(b, i + 2, s1, s2);
    }
}

/// Moves each word after a jump or call marker by `shift` words.
fn relocate(b: &mut Vec<u8>, shift: usize)
    ensures
        final(b)@ == model::relocate(old(b)@, 0, shift as nat),
{
    let ghost b0 = b@;
    let n = b.len();
    let sm: u32 = (shift % 65536) as u32;
    let mut i: usize = 0;
    while n >= 4 && i <= n - 4
        invariant
            b@.len() == n,
            i <= n,
            sm == shift % 65536,
            model::relocate(b0, 0, shift as nat) == model::relocate(b@, i as int, shift as nat),
        decreases n - i,
    {
        if (b[i] == 0xF8 && b[i + 1] == 0xF8) || (b[i] == 0xF7 && b[i + 1] == 0xF7) {
            let x: u32 = (b[i + 2] as u32) * 256 + (b[i + 3] as u32);
            let v: u32 = (x + sm) % 65536;
            proof {
                vstd::arithmetic::div_mod::lemma_add_mod_noop_right(x as int, shift as int, 65536);
            }
            assert(v == (b@[i + 2] as nat * 256 + b@[i + 3] as nat + shift as nat) % 65536);
            b.set(i + 2, (v % 256) as u8);
            b.set(i + 3, (v / 256) as u8);
            i = i + 4;
        } else {
            i = i + 2;
        }
    }
}

impl DuckyCompiler {
    /// Gives `name` the next address and the value `v`.
    fn force_var(&mut self, name: &[char], v: Vec<char>) -> (addr: usize)
        requires
            old(self).wf(),
        ensures
            final(self).wf(),
            final(self).same_frame(old(self)),
            final(self).model() == model::with_var(old(self).model(), name@, v@),
    {
        let ghost vv = v@;
        let a = self.state.allocate_var_chars(name);
        let _ = self.state.assign_value_chars(name, v);
        assert(self.state.values_view() =~= old(self).state.values_view().push(vv));
        assert(self.model() =~= model::with_var(old(self).model(), name@, vv));
        a
    }

    /// The language pack: how the layout types each letter and digit with SHIFT.
    fn generate_lang_pack(&mut self) -> (r: CompilerResult<()>)
        requires
            old(self).wf(),
        ensures
            r is Ok,
            final(self).wf(),
            final(self).same_frame(old(self)),
            final(self).model() == model::generate_lang_pack(old(self).model()),
    {
        let ghost m = self.model();
        proof {
            reveal_strlit("02");
        }
        let shift_key = chars_of("SHIFT");
        let shift: Vec<char> = match self.keyboard_layout.codes_for(shift_key.as_slice()) {
            Some(c) => if c.len() >= 1 {
                assert(text::view_all(c@)[0] == c@[0]@);
                to_vec(c[0].as_slice())
            } else {
                chars_of("02")
            },
            None => chars_of("02"),
        };
        assert(shift@ == model::shift_code(m));
        let marker = chars_of("LANG_MARKER");
        let mv = hex_encode_chars(0xEEEE);
        self.force_var(marker.as_slice(), mv);
        let ghost m1 = self.model();
        let cs = chars_of("abcdefghijklmnopqrstuvwxyz1234567890");
        let mut i: usize = 0;
        assert(cs@.take(0) =~= Seq::<char>::empty());
        while i < cs.len()
            invariant
                i <= cs@.len(),
                self.wf(),
                self.same_frame(old(self)),
                self.model() == model::lang_fold(m1, shift@, cs@.take(i as int)),
            decreases cs@.len() - i,
        {
            assert(cs@.take(i + 1).drop_last() =~= cs@.take(i as int));
            assert(cs@.take(i + 1).last() == cs@[i as int]);
            let mut key: Vec<char> = Vec::new();
            key.push(cs[i]);
            assert(key@ =~= seq![cs@[i as int]]);
            match self.keyboard_layout.codes_for(key.as_slice()) {
                Some(k) => {
                    if k.len() >= 3 {
                        assert(text::view_all(k@)[2] == k@[2]@);
                        match (parse_hex_chars(shift.as_slice(), 255), parse_hex_chars(k[2].as_slice(), 255)) {
                            (Some(sv), Some(kv)) => {
                                let v = hex_encode_chars(((sv as u16) * 256 + (kv as u16)) as u16);
                                let mut name = chars_of("LANG_");
                                name.push(cs[i]);
                                proof {
                                    reveal_strlit("LANG_");
                                }
                                assert(name@ =~= "LANG_"@ + seq![cs@[i as int]]);
                                self.force_var(name.as_slice(), v);
                            },
                            _ => {},
                        }
                    }
                },
                None => {},
            }
            i = i + 1;
        }
        assert(cs@.take(i as int) =~= cs@);
        Ok(())
    }

    /// The payload: the variables' initial values, the code, and the jumps
    /// moved past the values.
    fn finalize(&mut self) -> (r: CompilerResult<Vec<u8>>)
        requires
            old(self).wf(),
        ensures
            final(self).wf(),
            final(self).same_frame(old(self)),
            r matches Ok(b) && (final(self).model(), b@) == model::finalize(old(self).model()),
    {
        if self.state.requires_lang_pack {
            let _ = self.generate_lang_pack();
        }
        let ghost m1 = self.model();
        let n = self.state.var_values.len();
        let mut shift: usize = 0;
        if n > 1 {
            let mut header: Vec<u8> = Vec::new();
            header.push(0xE8);
            header.push(0xE8);
            let ghost vs = m1.values.skip(1);
            let mut i: usize = 1;
            assert(vs.take(0) =~= Seq::<Seq<char>>::empty());
            while i < n
                invariant
                    1 <= i <= n,
                    n == self.state.var_values@.len(),
                    vs == text::view_all(self.state.var_values@).skip(1),
                    header@ == seq![0xE8u8, 0xE8u8] + model::value_bytes(vs.take(i - 1)),
                decreases n - i,
            {
                assert(vs.take(i as int).drop_last() =~= vs.take(i - 1));
                assert(vs.take(i as int).last() == self.state.var_values@[i as int]@);
                let v = encoder::normalize_str_chars(self.state.var_values[i].as_slice());
                encoder::append_string(&mut header, v.as_slice());
                assert(header@ =~= seq![0xE8u8, 0xE8u8] + model::value_bytes(vs.take(i as int)));
                i = i + 1;
            }
            assert(vs.take(n - 1) =~= vs);
            header.push(0xE8);
            header.push(0xE8);
            extend_bytes(&mut header, self.output_buffer.as_slice());
            self.output_buffer = header;
            shift = (n % 65536) + 1;
            assert(self.model() =~= model::with_header(m1).0);
        }
        let mut b: Vec<u8> = Vec::new();
        extend_bytes(&mut b, self.output_buffer.as_slice());
        if b.len() % 2 == 1 {
            b.push(0);
        }
        let ghost sh = model::with_header(m1).1;
        proof {
            if n > 1 {
                vstd::arithmetic::div_mod::lemma_add_mod_noop(n as int, 1, 65536);
                vstd::arithmetic::div_mod::lemma_mod_twice(n as int, 65536);
                lemma_relocate_mod(b@, 0, shift as nat, sh);
            }
        }
        relocate(&mut b, shift);
        Ok(b)
    }
}

impl DuckyCompiler {
    /// A compiler with no program read yet, and the US layout when no
    /// layout is given.
    pub fn new(keyboard_layout: Option<KeyboardLayout>) -> (r: Self)
        ensures
            r.wf(),
            r.errors@.len() == 0,
            r.warnings@.len() == 0,
            r.keyboard_layout@ == (match keyboard_layout {
                Some(l) => l@,
                None => language::map_of(language::us_entries()),
            }),
            r.model() == model::initial(r.keyboard_layout@),
    {
        let layout = match keyboard_layout {
            Some(l) => l,
            None => KeyboardLayout::default_us(),
        };
        let r = DuckyCompiler {
            state: ParserState::new(),
            keyboard_layout: layout,
            output_buffer: Vec::new(),
            errors: Vec::new(),
            warnings: Vec::new(),
            ds3_detected: false,
            default_delay: 0,
            delay_override: false,
            current_line: Vec::new(),
            current_line_index: 0,
            inside_string_block: false,
            inside_stringln_block: false,
            string_block_indentation_level: 1,
            preserve_leading_space: false,
            inside_rem_block: false,
            awaiting_future_addr: Vec::new(),
            goto_awaiting_label: Vec::new(),
            defining_function: false,
            return_defined: false,
            defining_button: 0,
            button_block_stack: Vec::new(),
            previous_line: Vec::new(),
            modifier_queue: Vec::new(),
            last_command: Vec::new(),
        };
        assert(r.model().awaiting =~= Seq::<Seq<usize>>::empty());
        assert(r.model().pending_calls =~= Seq::<(Seq<char>, usize)>::empty());
        assert(r.model().modifier_queue =~= Seq::<Seq<char>>::empty());
        assert(r.model() =~= model::initial(r.keyboard_layout@));
        r
    }

    /// One line of the program.
    fn process_one(&mut self, line: &[char]) -> (r: CompilerResult<()>)
        requires
            old(self).wf(),
        ensures
            old(self).leads_to(*final(self), model::line_outcome(old(self).model(), line@), r),
    {
        proof {
            reveal(model::line_outcome);
        }
        self.process_line(line)
    }

    /// Compiles line `i`; gives whether to go on (0) or stop (1: too many
    /// errors, 2: payload too large).
    #[verifier::spinoff_prover]
    fn line_step(&mut self, line: &[char], i: usize, Ghost(faults): Ghost<Seq<(Fault, usize)>>, Ghost(base): Ghost<nat>) -> (st: u8)
        requires
            old(self).wf(),
            errors_match(old(self).errors@, old(self).errors@.take(base as int), faults),
            base <= old(self).errors@.len(),
        ensures
            ({
                let q = model::line_step(old(self).model(), line@, i as nat, faults, base);
                &&& final(self).wf()
                &&& final(self).warnings@ == old(self).warnings@
                &&& final(self).model() == q.0
                &&& errors_match(final(self).errors@, old(self).errors@.take(base as int), q.1)
                &&& st as nat == q.2
            }),
    {
        let ghost before = old(self).errors@.take(base as int);
        self.current_line = to_vec(line);
        self.current_line_index = i;
        let ghost m0 = self.model();
        let r = self.process_one(line);
        let ghost o = model::line_outcome(m0, line@);
        match r {
            Err(e) => {
                let ghost f = o.1.unwrap();
                self.record_error(e, Ghost(f), Ghost(faults), Ghost(base));
                if self.errors.len() > 50 {
                    return 1;
                }
            },
            Ok(_) => {},
        }
        self.finish_line(line);
        if self.output_buffer.len() > constants::MAX_PAYLOAD_SIZE {
            return 2;
        }
        0
    }

    /// After a line: the default delay when it applies, and every register free.
    fn finish_line(&mut self, line: &[char])
        requires
            old(self).wf(),
        ensures
            final(self).wf(),
            final(self).errors@ == old(self).errors@,
            final(self).warnings@ == old(self).warnings@,
            final(self).model() == model::after_line(old(self).model(), line@),
    {
        match self.check_delay() {
            Some(ts) => {
                proof {
                    lemma_delay_tokens_sized(self.default_delay as nat);
                }
                encoder::append_tokens(&mut self.output_buffer, &ts);
            },
            None => {},
        }
        self.state.free_eval_registers = self.state.total_eval_registers;
        self.previous_line = to_vec(line);
        assert(self.model() =~= model::after_line(old(self).model(), line@));
    }

    /// Records an error.
    fn record_error(&mut self, e: CompilerError, Ghost(f): Ghost<Fault>, Ghost(faults): Ghost<Seq<(Fault, usize)>>, Ghost(base): Ghost<nat>)
        requires
            base <= old(self).errors@.len(),
            errors_match(old(self).errors@, old(self).errors@.take(base as int), faults),
            error_is(e, f, old(self).current_line_index),
        ensures
            final(self).errors@ == old(self).errors@.push(e),
            errors_match(
                final(self).errors@,
                old(self).errors@.take(base as int),
                faults.push((f, old(self).current_line_index)),
            ),
            final(self).model() == old(self).model(),
            final(self).wf() == old(self).wf(),
            final(self).warnings@ == old(self).warnings@,
    {
        let ghost f1 = faults.push((f, self.current_line_index));
        self.errors.push(e);
        proof {
            assert(self.errors@.take(base as int) =~= old(self).errors@.take(base as int));
            assert forall|k: int| 0 <= k < f1.len() implies error_is(
                #[trigger] self.errors@[base + k],
                f1[k].0,
                f1[k].1,
            ) by {
                if k < faults.len() {
                    assert(f1[k] == faults[k]);
                }
            }
        }
    }

    /// Compiles each line in turn; gives whether the payload grew too large.
    fn run_lines(&mut self, lines: &Vec<Vec<char>>) -> (too_large: bool)
        requires
            old(self).wf(),
        ensures
            ({
                let run = model::run_lines(
                    old(self).model(),
                    text::view_all(lines@),
                    0,
                    Seq::empty(),
                    old(self).errors@.len() as nat,
                );
                &&& final(self).wf()
                &&& final(self).warnings@ == old(self).warnings@
                &&& final(self).model() == run.0
                &&& errors_match(final(self).errors@, old(self).errors@, run.1)
                &&& too_large == run.2
            }),
    {
        let ghost ls = text::view_all(lines@);
        let ghost base = old(self).errors@.len() as nat;
        let ghost m_start = self.model();
        let ghost mut faults: Seq<(Fault, usize)> = Seq::empty();
        let mut i: usize = 0;
        assert(old(self).errors@.take(old(self).errors@.len() as int) =~= old(self).errors@);
        while i < lines.len()
            invariant
                i <= lines@.len(),
                ls == text::view_all(lines@),
                base == old(self).errors@.len(),
                m_start == old(self).model(),
                self.wf(),
                self.warnings@ == old(self).warnings@,
                base <= self.errors@.len(),
                self.errors@.take(base as int) == old(self).errors@,
                errors_match(self.errors@, old(self).errors@, faults),
                model::run_lines(m_start, ls, 0, Seq::empty(), base) == model::run_lines(
                    self.model(),
                    ls,
                    i as nat,
                    faults,
                    base,
                ),
            decreases lines@.len() - i,
        {
            assert(ls[i as int] == lines@[i as int]@);
            let ghost q = model::line_step(self.model(), ls[i as int], i as nat, faults, base);
            let st = self.line_step(lines[i].as_slice(), i, Ghost(faults), Ghost(base));
            proof {
                faults = q.1;
            }
            if st == 1 {
                return false;
            }
            if st == 2 {
                return true;
            }
            i = i + 1;
        }
        false
    }
}

impl DuckyCompiler {
    /// Compiles a DuckyScript program to the bytes of its payload.
    ///
    /// Errors in single lines are recorded in `errors` and compilation goes
    /// on (up to more than 50 errors); a DEFINE given twice, a payload over
    /// the size limit and a block left open stop it.
    pub fn compile(&mut self, source: &str) -> (r: CompilerResult<Vec<u8>>)
        requires
            old(self).wf(),
        ensures
            final(self).wf(),
            ({
                let lines = text::lines(model::sanitize(source@));
                match preprocessor::gather_from(lines, 0, Seq::empty()) {
                    Err((l, n)) => {
                        &&& r matches Err(CompilerError::DuplicateDefinition { line, name }) && line == l
                            && name@ == n
                        &&& final(self).model() == old(self).model()
                        &&& final(self).errors@ == old(self).errors@
                        &&& final(self).warnings@ == old(self).warnings@
                    },
                    Ok(defs) => {
                        let (pl, reps) = model::prepared_lines(defs, lines);
                        let run = model::run_lines(
                            old(self).model(),
                            pl,
                            0,
                            Seq::empty(),
                            old(self).errors@.len() as nat,
                        );
                        &&& errors_match(final(self).errors@, old(self).errors@, run.1)
                        &&& final(self).warnings@.take(old(self).warnings@.len() as int) == old(
                            self,
                        ).warnings@
                        &&& final(self).warnings@.len() >= old(self).warnings@.len()
                        &&& preprocessor::warnings_match(
                            final(self).warnings@.skip(old(self).warnings@.len() as int),
                            reps,
                        )
                        &&& if run.2 {
                            &&& final(self).model() == run.0
                            &&& r matches Err(CompilerError::PayloadTooLarge { size }) && size
                                == run.0.out.len()
                        } else {
                            match model::unclosed(run.0) {
                                Some(b) => {
                                    &&& final(self).model() == run.0
                                    &&& r matches Err(CompilerError::MissingEnd { line, block_type })
                                        && line == run.0.line_index && block_type@ == b
                                },
                                None => r matches Ok(bytes) && (final(self).model(), bytes@)
                                    == model::finalize(run.0),
                            }
                        }
                    },
                }
            }),
    {
        let src = chars_of(source);
        let clean = remove_cr(src.as_slice());
        let lines = text::split_lines(clean.as_slice());
        let mut pre = Preprocessor::new();
        match pre.gather_defines_chars(&lines) {
            Err(e) => {
                return Err(e);
            },
            Ok(_) => {},
        }
        let ifd = pre.parse_ifdefs_chars(&lines);
        let prepared = pre.process_chars(&ifd);
        let mut w = pre.take_warnings();
        proof {
            assert(w@.skip(0) =~= w@);
        }
        let ghost w0 = self.warnings@;
        self.warnings.append(&mut w);
        assert(self.warnings@.take(w0.len() as int) =~= w0);
        assert(self.warnings@.skip(w0.len() as int) =~= self.warnings@.skip(w0.len() as int));
        let too_large = self.run_lines(&prepared);
        if too_large {
            return Err(CompilerError::PayloadTooLarge { size: self.output_buffer.len() });
        }
        match self.post_process() {
            Err(e) => {
                return Err(e);
            },
            Ok(_) => {},
        }
        self.finalize()
    }
}

/// The delay tokens are all two characters long.
proof fn lemma_delay_tokens_sized(d: nat)
    ensures
        encoder::tokens_well_sized(encoder::delay_tokens(d)),
    decreases d,
{
    reveal_strlit("00");
    reveal_strlit("FF");
    if d > 255 {
        lemma_delay_tokens_sized((d - 255) as nat);
        assert forall|i: int| 0 <= i < encoder::delay_tokens(d).len() implies (
        #[trigger] encoder::delay_tokens(d)[i]).len() != 3 by {
            if i >= 2 {
                assert(encoder::delay_tokens(d)[i] == encoder::delay_tokens((d - 255) as nat)[i - 2]);
            }
        }
    } else if d > 0 {
        encoder::lemma_byte_hex_roundtrip(d as u8);
    }
}

/// The operand of KEY_DOWN and the like.
fn single_operand(line: &[char]) -> (r: u8)
    ensures
        r == model::single_operand(line@),
{
    let p = split_words(line);
    let a: Vec<char> = if p.len() >= 2 {
        assert(text::view_all(p@)[1] == p@[1]@);
        to_vec(p[1].as_slice())
    } else {
        chars_of("0x00")
    };
    let s = strip_hex_prefix(a.as_slice());
    let t = trim_chars(s.as_slice());
    parse_hex_byte_chars(t)
}

/// A hex operand without its `0x`/`0X` prefixes.
fn strip_hex_prefix(a: &[char]) -> (r: Vec<char>)
    ensures
        r@ == model::strip_hex_prefix(a@),
{
    let p1 = chars_of("0x");
    let p2 = chars_of("0X");
    let s1 = strip_all_prefix_chars(a, p1.as_slice());
    let s2 = strip_all_prefix_chars(s1, p2.as_slice());
    to_vec(s2)
}

/// What follows the first space of `t`.
fn after_space(t: &[char]) -> (r: Vec<char>)
    ensures
        r@ == model::after_space(t@),
{
    let mut k: usize = 0;
    while k < t.len() && t[k] != ' '
        invariant
            k <= t@.len(),
            forall|m: int| 0 <= m < k ==> t@[m] != ' ',
        decreases t@.len() - k,
    {
        k = k + 1;
    }
    proof {
        text::lemma_index_of_char(t@, ' ', k as int);
    }
    if k < t.len() {
        to_vec(&t[k + 1..t.len()])
    } else {
        Vec::new()
    }
}

/// The two operands of MOD_KEY_DOWN and MOD_KEY_UP.
fn two_operands(line: &[char]) -> (r: (u8, u8))
    ensures
        r == model::two_operands(line@),
{
    let t = trim_chars(line);
    let args = after_space(t);
    let p1 = chars_of("0x");
    let p2 = chars_of("0X");
    let empty: Vec<char> = Vec::new();
    let c1 = replace_all_chars(args.as_slice(), p1.as_slice(), empty.as_slice());
    let c = replace_all_chars(c1.as_slice(), p2.as_slice(), empty.as_slice());
    let b1: &[char] = if c.len() >= 2 {
        &c.as_slice()[0..2]
    } else {
        empty.as_slice()
    };
    let b2: &[char] = if c.len() >= 4 {
        &c.as_slice()[2..4]
    } else {
        empty.as_slice()
    };
    (parse_hex_byte_chars(trim_chars(b1)), parse_hex_byte_chars(trim_chars(b2)))
}

/// The arguments of a STRING line.
fn string_args(line: &[char]) -> (r: Vec<char>)
    ensures
        r@ == model::string_args(line@),
{
    after_space(trim_start_chars(line))
}

/// `s` without a final `marker`.
fn strip_marker(s: &[char], marker: &str) -> (r: Vec<char>)
    ensures
        r@ == model::strip_marker(s@, marker@),
{
    if ends_with_str(s, marker) {
        let n = marker.unicode_len();
        to_vec(&s[0..s.len() - n])
    } else {
        to_vec(s)
    }
}

/// Appends the characters of `b`.
fn append_chars(a: &mut Vec<char>, b: &[char])
    ensures
        final(a)@ == old(a)@ + b@,
{
    let mut i: usize = 0;
    while i < b.len()
        invariant
            i <= b@.len(),
            a@ == old(a)@ + b@.take(i as int),
        decreases b@.len() - i,
    {
        a.push(b[i]);
        assert(old(a)@ + b@.take(i + 1) =~= (old(a)@ + b@.take(i as int)).push(b@[i as int]));
        i = i + 1;
    }
    assert(b@.take(b@.len() as int) =~= b@);
}

/// The words from position `from` on.
fn to_vec_words(ws: &Vec<Vec<char>>, from: usize) -> (r: Vec<Vec<char>>)
    requires
        from <= ws@.len(),
    ensures
        text::view_all(r@) == text::view_all(ws@).skip(from as int),
{
    let mut r: Vec<Vec<char>> = Vec::new();
    let mut i: usize = from;
    while i < ws.len()
        invariant
            from <= i <= ws@.len(),
            text::view_all(r@) == text::view_all(ws@).subrange(from as int, i as int),
        decreases ws@.len() - i,
    {
        let w = to_vec(ws[i].as_slice());
        proof {
            text::lemma_view_all_push(r@, w);
        }
        r.push(w);
        assert(text::view_all(ws@).subrange(from as int, i + 1) =~= text::view_all(ws@).subrange(
            from as int,
            i as int,
        ).push(ws@[i as int]@));
        i = i + 1;
    }
    assert(text::view_all(ws@).subrange(from as int, i as int) =~= text::view_all(ws@).skip(
        from as int,
    ));
    r
}

/// The words that are not `-`.
fn without_dashes(ws: &Vec<Vec<char>>) -> (r: Vec<Vec<char>>)
    ensures
        text::view_all(r@) == text::view_all(ws@).filter(|w: Seq<char>| w != "-"@),
{
    let ghost all = text::view_all(ws@);
    let mut r: Vec<Vec<char>> = Vec::new();
    let mut i: usize = 0;
    assert(all.take(0) =~= Seq::<Seq<char>>::empty());
    while i < ws.len()
        invariant
            i <= ws@.len(),
            all == text::view_all(ws@),
            text::view_all(r@) == all.take(i as int).filter(|w: Seq<char>| w != "-"@),
        decreases ws@.len() - i,
    {
        proof {
            assert(all.take(i + 1).drop_last() =~= all.take(i as int));
            reveal_with_fuel(Seq::<Seq<char>>::filter, 1);
        }
        if !eq_str(ws[i].as_slice(), "-") {
            let w = to_vec(ws[i].as_slice());
            proof {
                text::lemma_view_all_push(r@, w);
            }
            r.push(w);
        }
        i = i + 1;
    }
    assert(all.take(i as int) =~= all);
    r
}

pub fn extend_bytes(out: &mut Vec<u8>, b: &[u8])
    ensures
        final(out)@ == old(out)@ + b@,
{
    let mut i: usize = 0;
    while i < b.len()
        invariant
            i <= b@.len(),
            out@ == old(out)@ + b@.take(i as int),
        decreases b@.len() - i,
    {
        out.push(b[i]);
        assert(old(out)@ + b@.take(i + 1) =~= (old(out)@ + b@.take(i as int)).push(b@[i as int]));
        i = i + 1;
    }
    assert(b@.take(b@.len() as int) =~= b@);
}

proof fn lemma_ill_sized_first(ts: Seq<Seq<char>>, i: int)
    requires
        0 <= i < ts.len(),
        !encoder::string_cut_ok(ts[i]),
        forall|k: int| 0 <= k < i ==> encoder::string_cut_ok(#[trigger] ts[k]),
    ensures
        model::ill_sized(ts) == ts[i],
        !encoder::strings_cut_ok(ts),
    decreases i,
{
    if i > 0 {
        assert forall|k: int| 0 <= k < i - 1 implies encoder::string_cut_ok(
            #[trigger] ts.drop_first()[k],
        ) by {
            assert(ts.drop_first()[k] == ts[k + 1]);
        }
        lemma_ill_sized_first(ts.drop_first(), i - 1);
    }
}


/// Whether a command line of kind `t` is remembered for a bare REPEAT.
pub fn is_command_token(t: &TokenType) -> (r: bool)
    ensures
        r == model::is_command(*t),
{
    match t {
        TokenType::Repeat => false,
        TokenType::Rem => false,
        TokenType::Comment => false,
        _ => true,
    }
}

} // verus!
