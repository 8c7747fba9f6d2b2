//! The parser's state (variables, labels, blocks and evaluation registers)
//! and the splitting of expression lines into lexemes.
use vstd::prelude::*;

use crate::constants::{
    self, is_double_operator_pair, operator_code_of, reserved_constant_code_of,
    reserved_variable_code_of,
};
use crate::errors::{CompilerError, CompilerResult};
use crate::namemap::NameMap;
use crate::numbers::{self, decimal_chars, parse_i32_chars};
use crate::text::{self, chars_of, contains_str, starts_with_str, string_of, to_vec};

verus! {

/// A variable: its address and its hex value.
#[derive(Debug, Clone)]
pub struct Variable {
    pub address: usize,
    pub value: String,
}

/// Variables, labels, open blocks and evaluation registers.
pub struct ParserState {
    /// The address of each variable.
    pub var_map: NameMap<usize>,
    /// The hex value of each address; address 0 holds a marker.
    pub var_values: Vec<Vec<char>>,
    /// The address the next variable gets.
    pub next_var_address: usize,
    /// The output position of each label.
    pub label_map: NameMap<usize>,
    /// The open IF/WHILE blocks, innermost last.
    pub block_stack: Vec<u16>,
    pub current_block: u16,
    pub next_block_address: u16,
    pub total_eval_registers: usize,
    pub free_eval_registers: usize,
    pub requires_lang_pack: bool,
}

/// The word written in place of the value of address 0.
pub open spec fn values_marker() -> Seq<char> {
    "VALUES"@
}

/// The value a freshly allocated variable holds.
pub open spec fn zero_value() -> Seq<char> {
    "0000"@
}

impl ParserState {
    /// Every variable has an address below the next one, and each address
    /// below the next one has a value.
    pub open spec fn wf(&self) -> bool {
        &&& self.var_values@.len() == self.next_var_address
        &&& self.next_var_address >= 1
        &&& forall|n: Seq<char>| #[trigger]
            self.var_map@.dom().contains(n) ==> 1 <= self.var_map@[n] < self.next_var_address
        &&& self.free_eval_registers <= self.total_eval_registers
    }

    pub open spec fn values_view(&self) -> Seq<Seq<char>> {
        text::view_all(self.var_values@)
    }

    /// A state with no variables, labels or blocks.
    pub fn new() -> (r: ParserState)
        ensures
            r.wf(),
            r.var_map@ == Map::<Seq<char>, usize>::empty(),
            r.label_map@ == Map::<Seq<char>, usize>::empty(),
            r.values_view() == seq![values_marker()],
            r.next_var_address == 1,
            r.block_stack@ == Seq::<u16>::empty(),
            r.current_block == 0,
            r.next_block_address == 0,
            r.total_eval_registers == 0,
            r.free_eval_registers == 0,
            !r.requires_lang_pack,
    {
        let mut values: Vec<Vec<char>> = Vec::new();
        values.push(chars_of("VALUES"));
        let r = ParserState {
            var_map: NameMap::new(),
            var_values: values,
            next_var_address: 1,
            label_map: NameMap::new(),
            block_stack: Vec::new(),
            current_block: 0,
            next_block_address: 0,
            total_eval_registers: 0,
            free_eval_registers: 0,
            requires_lang_pack: false,
        };
        assert(r.values_view() =~= seq![values_marker()]);
        r
    }

    /// Gives `name` the next address, with the value `0000`.
    pub(crate) fn allocate_var_chars(&mut self, name: &[char]) -> (addr: usize)
        requires
            old(self).wf(),
        ensures
            final(self).wf(),
            addr == old(self).next_var_address,
            final(self).next_var_address == addr + 1,
            final(self).var_map@ == old(self).var_map@.insert(name@, addr),
            final(self).values_view() == old(self).values_view().push(zero_value()),
            final(self).label_map@ == old(self).label_map@,
            final(self).block_stack@ == old(self).block_stack@,
            final(self).current_block == old(self).current_block,
            final(self).next_block_address == old(self).next_block_address,
            final(self).total_eval_registers == old(self).total_eval_registers,
            final(self).free_eval_registers == old(self).free_eval_registers,
            final(self).requires_lang_pack == old(self).requires_lang_pack,
    {
        let addr = self.next_var_address;
        let z = chars_of("0000");
        self.var_values.push(z);
        self.next_var_address = self.var_values.len();
        self.var_map.insert(to_vec(name), addr);
        proof {
            text::lemma_view_all_push(old(self).var_values@, z);
        }
        addr
    }

    /// Gives `name` the next address, with the value `0000`, and moves the
    /// next address on by one.
    pub fn allocate_var(&mut self, name: &str) -> (addr: usize)
        requires
            old(self).next_var_address < usize::MAX,
        ensures
            old(self).wf() ==> final(self).wf(),
            addr == old(self).next_var_address,
            final(self).next_var_address == addr + 1,
            final(self).var_map@ == old(self).var_map@.insert(name@, addr),
            final(self).values_view() == old(self).values_view().push(zero_value()),
            final(self).label_map@ == old(self).label_map@,
            final(self).block_stack@ == old(self).block_stack@,
            final(self).current_block == old(self).current_block,
            final(self).next_block_address == old(self).next_block_address,
            final(self).total_eval_registers == old(self).total_eval_registers,
            final(self).free_eval_registers == old(self).free_eval_registers,
            final(self).requires_lang_pack == old(self).requires_lang_pack,
    {
        let n = chars_of(name);
        let addr = self.next_var_address;
        self.var_map.insert(n, addr);
        let z = chars_of("0000");
        self.var_values.push(z);
        self.next_var_address = self.next_var_address + 1;
        proof {
            text::lemma_view_all_push(old(self).var_values@, z);
        }
        addr
    }

    /// Sets the value of a variable.
    pub(crate) fn assign_value_chars(&mut self, name: &[char], value: Vec<char>) -> (r: CompilerResult<
        usize,
    >)
        requires
            old(self).wf(),
        ensures
            final(self).wf(),
            final(self).var_map@ == old(self).var_map@,
            final(self).next_var_address == old(self).next_var_address,
            final(self).label_map@ == old(self).label_map@,
            final(self).block_stack@ == old(self).block_stack@,
            final(self).current_block == old(self).current_block,
            final(self).next_block_address == old(self).next_block_address,
            final(self).total_eval_registers == old(self).total_eval_registers,
            final(self).free_eval_registers == old(self).free_eval_registers,
            final(self).requires_lang_pack == old(self).requires_lang_pack,
            old(self).var_map@.dom().contains(name@) ==> {
                &&& r == Ok::<usize, CompilerError>(old(self).var_map@[name@])
                &&& final(self).values_view() == old(self).values_view().update(
                    old(self).var_map@[name@] as int,
                    value@,
                )
            },
            !old(self).var_map@.dom().contains(name@) ==> {
                &&& r matches Err(CompilerError::UnknownVariable { name: n, .. }) && n@ == name@
                &&& final(self).values_view() == old(self).values_view()
            },
    {
        match self.var_map.get(name) {
            Some(addr) => {
                let ghost v = value@;
                self.var_values.set(addr, value);
                assert(self.values_view() =~= old(self).values_view().update(addr as int, v));
                Ok(addr)
            },
            None => Err(CompilerError::UnknownVariable { line: 0, name: string_of(name) }),
        }
    }

    /// Sets the value of a variable: refused when the name has no address,
    /// or an address with no value slot.
    pub fn assign_value(&mut self, name: &str, value: String) -> (r: CompilerResult<usize>)
        ensures
            old(self).wf() ==> final(self).wf(),
            final(self).var_map@ == old(self).var_map@,
            final(self).next_var_address == old(self).next_var_address,
            final(self).label_map@ == old(self).label_map@,
            final(self).block_stack@ == old(self).block_stack@,
            final(self).current_block == old(self).current_block,
            final(self).next_block_address == old(self).next_block_address,
            final(self).total_eval_registers == old(self).total_eval_registers,
            final(self).free_eval_registers == old(self).free_eval_registers,
            final(self).requires_lang_pack == old(self).requires_lang_pack,
            old(self).var_map@.dom().contains(name@) && old(self).var_map@[name@]
                < old(self).var_values@.len() ==> {
                &&& r == Ok::<usize, CompilerError>(old(self).var_map@[name@])
                &&& final(self).values_view() == old(self).values_view().update(
                    old(self).var_map@[name@] as int,
                    value@,
                )
            },
            !(old(self).var_map@.dom().contains(name@) && old(self).var_map@[name@]
                < old(self).var_values@.len()) ==> {
                &&& r matches Err(CompilerError::UnknownVariable { name: n, .. }) && n@ == name@
                &&& final(self).values_view() == old(self).values_view()
            },
    {
        let n = chars_of(name);
        let v = chars_of(value.as_str());
        match self.var_map.get(n.as_slice()) {
            Some(addr) => {
                if addr < self.var_values.len() {
                    let ghost vv = v@;
                    self.var_values.set(addr, v);
                    assert(self.values_view() =~= old(self).values_view().update(addr as int, vv));
                    Ok(addr)
                } else {
                    Err(CompilerError::UnknownVariable { line: 0, name: string_of(n.as_slice()) })
                }
            },
            None => Err(CompilerError::UnknownVariable { line: 0, name: string_of(n.as_slice()) }),
        }
    }

    /// The address of a variable.
    pub fn get_var_address_chars(&self, name: &[char]) -> (r: Option<usize>)
        ensures
            match r {
                Some(a) => self.var_map@.dom().contains(name@) && a == self.var_map@[name@],
                None => !self.var_map@.dom().contains(name@),
            },
    {
        self.var_map.get(name)
    }

    /// The address of a variable.
    pub fn get_var_address(&self, name: &str) -> (r: Option<usize>)
        ensures
            match r {
                Some(a) => self.var_map@.dom().contains(name@) && a == self.var_map@[name@],
                None => !self.var_map@.dom().contains(name@),
            },
    {
        let n = chars_of(name);
        self.var_map.get(n.as_slice())
    }

    /// Whether a variable has an address.
    pub fn var_exists(&self, name: &str) -> (r: bool)
        ensures
            r == self.var_map@.dom().contains(name@),
    {
        let n = chars_of(name);
        self.var_map.contains_key(n.as_slice())
    }

    /// Whether `var` names a reserved (system) variable.
    pub fn is_reserved_var(var: &str) -> (r: bool)
        ensures
            r == constants::reserved_variable_code(var@).is_some(),
    {
        let v = chars_of(var);
        reserved_variable_code_of(v.as_slice()).is_some()
    }

    /// Whether `constant` names a reserved constant.
    pub fn is_reserved_constant(constant: &str) -> (r: bool)
        ensures
            r == constants::reserved_constant_code(constant@).is_some(),
    {
        let v = chars_of(constant);
        reserved_constant_code_of(v.as_slice()).is_some()
    }

    /// Whether `op` is an expression operator.
    pub fn is_operator(op: &str) -> (r: bool)
        ensures
            r == constants::operator_code(op@).is_some(),
    {
        let v = chars_of(op);
        operator_code_of(v.as_slice()).is_some()
    }

    /// Whether `word` is a variable reference.
    pub fn is_var(word: &str) -> (r: bool)
        ensures
            r == text::starts_with(word@, "$"@),
    {
        let v = chars_of(word);
        starts_with_str(v.as_slice(), "$")
    }

    /// Whether `word` is a hex literal.
    pub fn is_hex(word: &str) -> (r: bool)
        ensures
            r == text::starts_with(word@, "0x"@),
    {
        let v = chars_of(word);
        starts_with_str(v.as_slice(), "0x")
    }

    /// Whether `word` is a number: a decimal `i32`, or a hex literal.
    pub fn is_numeric(word: &str) -> (r: bool)
        ensures
            r == (numbers::parse_i32(word@).is_some() || text::starts_with(word@, "0x"@)),
    {
        let v = chars_of(word);
        parse_i32_chars(v.as_slice()).is_some() || starts_with_str(v.as_slice(), "0x")
    }

    /// Whether `word` holds a call (`()`).
    pub fn contains_function_call(word: &str) -> (r: bool)
        ensures
            r == text::contains(word@, "()"@),
    {
        let v = chars_of(word);
        contains_str(v.as_slice(), "()")
    }

    /// Whether a label is defined.
    pub fn label_exists(&self, label: &str) -> (r: bool)
        ensures
            r == self.label_map@.dom().contains(label@),
    {
        let v = chars_of(label);
        self.label_map.contains_key(v.as_slice())
    }

    /// Defines a label at an output position; a label is defined once.
    pub fn create_label_chars(&mut self, label: &[char], address: usize) -> (r: CompilerResult<()>)
        ensures
            old(self).wf() ==> final(self).wf(),
            final(self).var_map@ == old(self).var_map@,
            final(self).values_view() == old(self).values_view(),
            final(self).next_var_address == old(self).next_var_address,
            final(self).block_stack@ == old(self).block_stack@,
            final(self).current_block == old(self).current_block,
            final(self).next_block_address == old(self).next_block_address,
            final(self).total_eval_registers == old(self).total_eval_registers,
            final(self).free_eval_registers == old(self).free_eval_registers,
            final(self).requires_lang_pack == old(self).requires_lang_pack,
            old(self).label_map@.dom().contains(label@) ==> {
                &&& r matches Err(CompilerError::DuplicateDefinition { name, .. }) && name@
                    == label@
                &&& final(self).label_map@ == old(self).label_map@
            },
            !old(self).label_map@.dom().contains(label@) ==> {
                &&& r is Ok
                &&& final(self).label_map@ == old(self).label_map@.insert(label@, address)
            },
    {
        if self.label_map.contains_key(label) {
            return Err(CompilerError::DuplicateDefinition { line: 0, name: string_of(label) });
        }
        self.label_map.insert(to_vec(label), address);
        Ok(())
    }

    /// Defines a label at an output position; a label is defined once.
    pub fn create_label(&mut self, label: &str, address: usize) -> (r: CompilerResult<()>)
        ensures
            old(self).wf() ==> final(self).wf(),
            final(self).var_map@ == old(self).var_map@,
            final(self).values_view() == old(self).values_view(),
            final(self).next_var_address == old(self).next_var_address,
            final(self).block_stack@ == old(self).block_stack@,
            final(self).current_block == old(self).current_block,
            final(self).next_block_address == old(self).next_block_address,
            final(self).total_eval_registers == old(self).total_eval_registers,
            final(self).free_eval_registers == old(self).free_eval_registers,
            final(self).requires_lang_pack == old(self).requires_lang_pack,
            old(self).label_map@.dom().contains(label@) ==> {
                &&& r matches Err(CompilerError::DuplicateDefinition { name, .. }) && name@
                    == label@
                &&& final(self).label_map@ == old(self).label_map@
            },
            !old(self).label_map@.dom().contains(label@) ==> {
                &&& r is Ok
                &&& final(self).label_map@ == old(self).label_map@.insert(label@, address)
            },
    {
        let v = chars_of(label);
        self.create_label_chars(v.as_slice(), address)
    }

    /// Makes a register free: when none is, one more register is added.
    pub fn next_register(&mut self)
        requires
            old(self).free_eval_registers != 0 || old(self).total_eval_registers < usize::MAX,
        ensures
            old(self).wf() ==> final(self).wf(),
            old(self).free_eval_registers == 0 ==> {
                &&& final(self).total_eval_registers == old(self).total_eval_registers + 1
                &&& final(self).free_eval_registers == 1
            },
            old(self).free_eval_registers != 0 ==> {
                &&& final(self).total_eval_registers == old(self).total_eval_registers
                &&& final(self).free_eval_registers == old(self).free_eval_registers
            },
            final(self).var_map@ == old(self).var_map@,
            final(self).values_view() == old(self).values_view(),
            final(self).next_var_address == old(self).next_var_address,
            final(self).label_map@ == old(self).label_map@,
            final(self).block_stack@ == old(self).block_stack@,
            final(self).current_block == old(self).current_block,
            final(self).next_block_address == old(self).next_block_address,
            final(self).requires_lang_pack == old(self).requires_lang_pack,
    {
        if self.free_eval_registers == 0 {
            self.total_eval_registers = self.total_eval_registers + 1;
            self.free_eval_registers = self.free_eval_registers + 1;
        }
    }

    /// The name of register `n`.
    pub open spec fn register_name(n: nat) -> Seq<char> {
        "$__r"@ + numbers::decimal(n)
    }

    pub fn register_name_chars(n: usize) -> (r: Vec<char>)
        ensures
            r@ == Self::register_name(n as nat),
    {
        let mut r = chars_of("$__r");
        let d = decimal_chars(n as u128);
        let mut i: usize = 0;
        let ghost r0 = r@;
        while i < d.len()
            invariant
                i <= d@.len(),
                r@ == r0 + d@.take(i as int),
            decreases d@.len() - i,
        {
            r.push(d[i]);
            assert(r0 + d@.take(i + 1) =~= (r0 + d@.take(i as int)).push(d@[i as int]));
            i = i + 1;
        }
        assert(d@.take(d@.len() as int) =~= d@);
        r
    }

    /// The register in use: the one after the busy ones.
    pub fn current_register_chars(&self) -> (r: Vec<char>)
        requires
            self.wf(),
        ensures
            r@ == Self::register_name((self.total_eval_registers - self.free_eval_registers) as nat),
    {
        Self::register_name_chars(self.total_eval_registers - self.free_eval_registers)
    }

    /// The register in use: the one after the busy ones.
    pub fn current_register(&self) -> (r: String)
        requires
            self.wf(),
        ensures
            r@ == Self::register_name((self.total_eval_registers - self.free_eval_registers) as nat),
    {
        let v = self.current_register_chars();
        string_of(v.as_slice())
    }
}

/// The characters that are operators on their own.
pub open spec fn is_single_operator(c: char) -> bool {
    constants::operator_code(seq![c]).is_some()
}

pub fn is_single_operator_char(c: char) -> (r: bool)
    ensures
        r == is_single_operator(c),
{
    let mut v: Vec<char> = Vec::new();
    v.push(c);
    assert(v@ =~= seq![c]);
    operator_code_of(v.as_slice()).is_some()
}

pub open spec fn flush(cur: Seq<char>) -> Seq<Seq<char>> {
    if cur.len() > 0 {
        seq![cur]
    } else {
        seq![]
    }
}

/// The lexemes of `c` from position `i` on, with `cur` the word being read:
/// a word followed by `()` becomes one call lexeme, spaces separate words,
/// two-character operators, parentheses and one-character operators stand alone.
pub open spec fn split_from(c: Seq<char>, i: int, cur: Seq<char>) -> Seq<Seq<char>>
    decreases c.len() - i,
{
    if i < 0 || i >= c.len() {
        flush(cur)
    } else {
        let ch = c[i];
        let has_next = i + 1 < c.len();
        if ch == '(' && has_next && c[i + 1] == ')' && cur.len() > 0 {
            seq![cur + "()"@] + split_from(c, i + 2, Seq::empty())
        } else if ch == ' ' {
            flush(cur) + split_from(c, i + 1, Seq::empty())
        } else if has_next && constants::is_double_operator(ch, c[i + 1]) {
            flush(cur) + seq![seq![ch, c[i + 1]]] + split_from(c, i + 2, Seq::empty())
        } else if ch == '(' || ch == ')' || is_single_operator(ch) {
            flush(cur) + seq![seq![ch]] + split_from(c, i + 1, Seq::empty())
        } else {
            split_from(c, i + 1, cur.push(ch))
        }
    }
}

/// The lexemes of an expression line.
pub open spec fn split_syntax(c: Seq<char>) -> Seq<Seq<char>> {
    split_from(c, 0, Seq::empty())
}

proof fn lemma_flush_push(res: Seq<Seq<char>>, cur: Seq<char>)
    ensures
        cur.len() > 0 ==> res + flush(cur) == res.push(cur),
        cur.len() == 0 ==> res + flush(cur) == res,
{
    assert(cur.len() > 0 ==> res + flush(cur) =~= res.push(cur));
    assert(cur.len() == 0 ==> res + flush(cur) =~= res);
}

pub fn split_syntax_chars(c: &[char]) -> (res: Vec<Vec<char>>)
    ensures
        text::view_all(res@) == split_syntax(c@),
{
    let mut res: Vec<Vec<char>> = Vec::new();
    let mut cur: Vec<char> = Vec::new();
    let mut i: usize = 0;
    proof {
        reveal_strlit("()");
    }
    while i < c.len()
        invariant
            i <= c@.len(),
            c@.len() == c.len(),
            text::view_all(res@) + split_from(c@, i as int, cur@) == split_syntax(c@),
        decreases c@.len() - i,
    {
        let ch = c[i];
        let has_next = i + 1 < c.len();
        let ghost before = text::view_all(res@);
        let ghost cur0 = cur@;
        if ch == '(' && has_next && c[i + 1] == ')' && cur.len() > 0 {
            let mut w = cur;
            w.push('(');
            w.push(')');
            proof {
                reveal_strlit("()");
            }
            assert(w@ =~= cur0 + "()"@);
            proof {
                text::lemma_view_all_push(res@, w);
            }
            res.push(w);
            cur = Vec::new();
            assert(before + (seq![cur0 + "()"@] + split_from(c@, i + 2, Seq::empty())) =~= text::view_all(
                res@,
            ) + split_from(c@, i + 2, cur@));
            i = i + 2;
        } else if ch == ' ' {
            proof {
                lemma_flush_push(before, cur0);
            }
            if cur.len() > 0 {
                proof {
                    text::lemma_view_all_push(res@, cur);
                }
                res.push(cur);
            }
            cur = Vec::new();
            assert(before + (flush(cur0) + split_from(c@, i + 1, Seq::empty())) =~= text::view_all(
                res@,
            ) + split_from(c@, i + 1, cur@));
            i = i + 1;
        } else if has_next && is_double_operator_pair(ch, c[i + 1]) {
            proof {
                lemma_flush_push(before, cur0);
            }
            if cur.len() > 0 {
                proof {
                    text::lemma_view_all_push(res@, cur);
                }
                res.push(cur);
            }
            let ghost mid = text::view_all(res@);
            let mut op: Vec<char> = Vec::new();
            op.push(ch);
            op.push(c[i + 1]);
            assert(op@ =~= seq![ch, c@[i + 1]]);
            proof {
                text::lemma_view_all_push(res@, op);
            }
            res.push(op);
            cur = Vec::new();
            assert(before + (flush(cur0) + seq![seq![ch, c@[i + 1]]] + split_from(
                c@,
                i + 2,
                Seq::empty(),
            )) =~= text::view_all(res@) + split_from(c@, i + 2, cur@));
            i = i + 2;
        } else if ch == '(' || ch == ')' || is_single_operator_char(ch) {
            proof {
                lemma_flush_push(before, cur0);
            }
            if cur.len() > 0 {
                proof {
                    text::lemma_view_all_push(res@, cur);
                }
                res.push(cur);
            }
            let mut op: Vec<char> = Vec::new();
            op.push(ch);
            assert(op@ =~= seq![ch]);
            proof {
                text::lemma_view_all_push(res@, op);
            }
            res.push(op);
            cur = Vec::new();
            assert(before + (flush(cur0) + seq![seq![ch]] + split_from(c@, i + 1, Seq::empty()))
                =~= text::view_all(res@) + split_from(c@, i + 1, cur@));
            i = i + 1;
        } else {
            cur.push(ch);
            i = i + 1;
        }
    }
    proof {
        lemma_flush_push(text::view_all(res@), cur@);
    }
    if cur.len() > 0 {
        proof {
            text::lemma_view_all_push(res@, cur);
        }
        res.push(cur);
    }
    res
}

/// The lexemes of an expression line.
pub fn split_syntax_line(line: &str) -> (r: Vec<String>)
    ensures
        r@.map_values(|x: String| x@) == split_syntax(line@),
{
    let c = chars_of(line);
    let v = split_syntax_chars(c.as_slice());
    crate::encoder::strings_of(&v)
}

} // verus!
