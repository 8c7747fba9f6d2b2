//! The call hierarchy: which functions a function calls, and which call it.
use vstd::prelude::*;

use crate::document_formatting::whole_line;
use crate::document_symbol::{name_range, name_range_exec, word_after, word_after_exec, SymbolKind};
use crate::lexer::TokenType;
use crate::on_type_formatting::{push_all, trimmed_tokens, trimmed_tokens_of};
use crate::semantic_tokens::{alphanumeric, is_alphanumeric, MAX_DOCUMENT_CHARS};
use crate::text::{
    self, before_char, chars_of, eq_chars, split_lines, starts_with_str, string_of, trim_chars, view_all,
};
use crate::text_edit::{Position, Range};

verus! {

/// A function in the hierarchy.
#[derive(Debug)]
pub struct CallHierarchyItem {
    pub name: String,
    pub kind: SymbolKind,
    pub detail: Option<String>,
    pub uri: String,
    pub range: Range,
    pub selection_range: Range,
}

/// A function that calls the one asked about, with the lines of the calls.
#[derive(Debug)]
pub struct CallHierarchyIncomingCall {
    pub from: CallHierarchyItem,
    pub from_ranges: Vec<Range>,
}

/// A function that the one asked about calls, with the lines of the calls.
#[derive(Debug)]
pub struct CallHierarchyOutgoingCall {
    pub to: CallHierarchyItem,
    pub from_ranges: Vec<Range>,
}

/// An item as plain values: name, uri, range and range of the name.
pub type ItemView = (Seq<char>, Seq<char>, Range, Range);

/// Whether `it` is the function item `v`.
pub open spec fn item_is(it: CallHierarchyItem, v: ItemView) -> bool {
    &&& it.name@ == v.0
    &&& it.kind == SymbolKind::Function
    &&& match it.detail {
        Some(d) => d@ == "DuckyScript Function"@,
        None => false,
    }
    &&& it.uri@ == v.1
    &&& it.range == v.2
    &&& it.selection_range == v.3
}

/// The commands a line can start with that are never a function call.
pub open spec fn starts_with_builtin(t: Seq<char>) -> bool {
    ||| text::starts_with(t, "STRING"@)
    ||| text::starts_with(t, "STRINGLN"@)
    ||| text::starts_with(t, "DELAY"@)
    ||| text::starts_with(t, "IF"@)
    ||| text::starts_with(t, "WHILE"@)
    ||| text::starts_with(t, "VAR"@)
    ||| text::starts_with(t, "FUNCTION"@)
    ||| text::starts_with(t, "END_FUNCTION"@)
    ||| text::starts_with(t, "ENTER"@)
    ||| text::starts_with(t, "CTRL"@)
    ||| text::starts_with(t, "ALT"@)
    ||| text::starts_with(t, "GUI"@)
    ||| text::starts_with(t, "SHIFT"@)
    ||| text::starts_with(t, "REM"@)
    ||| text::starts_with(t, "DEFINE"@)
    ||| text::starts_with(t, "REPEAT"@)
    ||| text::starts_with(t, "HOLD"@)
    ||| text::starts_with(t, "RELEASE"@)
    ||| text::starts_with(t, "ATTACKMODE"@)
    ||| text::starts_with(t, "INJECT"@)
    ||| text::starts_with(t, "KEYCODE"@)
    ||| text::starts_with(t, "ELSE"@)
    ||| text::starts_with(t, "ELSE_IF"@)
    ||| text::starts_with(t, "END_IF"@)
    ||| text::starts_with(t, "END_WHILE"@)
    ||| text::starts_with(t, "RETURN"@)
    ||| text::starts_with(t, "INJECT_VAR"@)
    ||| text::starts_with(t, "EXFIL"@)
}

/// Only letters, digits and `_`.
pub open spec fn name_chars(s: Seq<char>) -> bool {
    forall|k: int| 0 <= k < s.len() ==> alphanumeric(#[trigger] s[k]) || s[k] == '_'
}

/// The function a line calls: its first word (up to a space) when that is
/// a name and the line does not start with a command.
pub open spec fn called_function(line: Seq<char>) -> Option<Seq<char>> {
    let t = text::trim(line);
    if starts_with_builtin(t) {
        None
    } else {
        let w = t.take(text::index_of_char(t, ' ') as int);
        if name_chars(w) {
            Some(w)
        } else {
            None
        }
    }
}

/// Line `line` defines the function `name`.
pub open spec fn defines_function(line: Seq<char>, name: Seq<char>) -> bool {
    let t = text::trim(line);
    text::starts_with(t, "FUNCTION "@) && word_after(t, "FUNCTION "@) == Some(name)
}

/// The first line from `k` on that defines `name`.
pub open spec fn definition_from(ls: Seq<Seq<char>>, k: int, name: Seq<char>) -> Option<int>
    decreases ls.len() - k,
{
    if k < 0 || k >= ls.len() {
        None
    } else if defines_function(ls[k], name) {
        Some(k)
    } else {
        definition_from(ls, k + 1, name)
    }
}

/// The line that ends the function whose body starts at `k`, with `depth`
/// functions open.
pub open spec fn function_end(toks: Seq<TokenType>, k: int, depth: int) -> Option<int>
    decreases toks.len() - k,
{
    if k < 0 || k >= toks.len() {
        None
    } else if toks[k] == TokenType::Function {
        function_end(toks, k + 1, depth + 1)
    } else if toks[k] == TokenType::EndFunction {
        if depth - 1 == 0 {
            Some(k)
        } else {
            function_end(toks, k + 1, depth - 1)
        }
    } else {
        function_end(toks, k + 1, depth)
    }
}

/// The lines of the function defined on line `s`, up to the start of the
/// line after its end.
pub open spec fn function_range(toks: Seq<TokenType>, s: int) -> Range {
    let e = match function_end(toks, s + 1, 1) {
        Some(j) => j,
        None => s,
    };
    Range {
        start: Position { line: s as u32, character: 0 },
        end: Position { line: (e + 1) as u32, character: 0 },
    }
}

/// The first and last line of the body of the function defined on line `s`.
pub open spec fn body_lines(toks: Seq<TokenType>, s: int) -> (int, int) {
    (
        s + 1,
        match function_end(toks, s + 1, 1) {
            Some(j) => if j > 0 {
                j - 1
            } else {
                0
            },
            None => s + 1,
        },
    )
}

/// The function open at line `upto`, scanning from line `k` with `cur` the
/// outermost open function and `depth` the number open.
pub open spec fn containing_from(
    ls: Seq<Seq<char>>,
    toks: Seq<TokenType>,
    k: int,
    upto: int,
    cur: Option<(Seq<char>, int)>,
    depth: int,
) -> Option<(Seq<char>, int)>
    decreases ls.len() - k,
{
    if k < 0 || k >= ls.len() || k > upto {
        cur
    } else if toks[k] == TokenType::Function {
        match word_after(text::trim(ls[k]), "FUNCTION "@) {
            Some(n) => containing_from(
                ls,
                toks,
                k + 1,
                upto,
                if depth == 0 {
                    Some((n, k))
                } else {
                    cur
                },
                depth + 1,
            ),
            None => containing_from(ls, toks, k + 1, upto, cur, depth),
        }
    } else if toks[k] == TokenType::EndFunction {
        containing_from(
            ls,
            toks,
            k + 1,
            upto,
            if depth - 1 == 0 {
                None
            } else {
                cur
            },
            depth - 1,
        )
    } else {
        containing_from(ls, toks, k + 1, upto, cur, depth)
    }
}

/// The item of the function `name` defined on line `d`.
pub open spec fn function_item(ls: Seq<Seq<char>>, toks: Seq<TokenType>, d: int, name: Seq<char>, uri: Seq<char>) -> ItemView {
    (name, uri, function_range(toks, d), name_range(ls[d], d, name))
}

/// The item for the position: the function defined on that line, or the
/// function called there when it is defined in the script.
pub open spec fn prepare_item(content: Seq<char>, pos: Position, uri: Seq<char>) -> Option<ItemView> {
    let ls = text::lines(content);
    let toks = trimmed_tokens(ls);
    let k = pos.line as int;
    if k >= ls.len() {
        None
    } else {
        let t = text::trim(ls[k]);
        if text::starts_with(t, "FUNCTION "@) && word_after(t, "FUNCTION "@) is Some {
            Some(function_item(ls, toks, k, word_after(t, "FUNCTION "@)->0, uri))
        } else {
            match called_function(t) {
                Some(f) => match definition_from(ls, 0, f) {
                    Some(d) => Some(function_item(ls, toks, d, f, uri)),
                    None => None,
                },
                None => None,
            }
        }
    }
}

/// The call to `name` on line `k`, when the line stands inside a function:
/// the calling function and the line.
pub open spec fn incoming_at(ls: Seq<Seq<char>>, toks: Seq<TokenType>, k: int, name: Seq<char>, uri: Seq<char>) -> Option<(ItemView, Range)> {
    let t = text::trim(ls[k]);
    if text::starts_with(t, "FUNCTION "@) {
        None
    } else if called_function(t) == Some(name) {
        match containing_from(ls, toks, 0, k, None, 0) {
            Some((cn, cl)) => Some((function_item(ls, toks, cl, cn, uri), whole_line(k, ls[k]))),
            None => None,
        }
    } else {
        None
    }
}

/// The calls to `name` from line `k` on.
pub open spec fn incoming_from(ls: Seq<Seq<char>>, toks: Seq<TokenType>, k: int, name: Seq<char>, uri: Seq<char>) -> Seq<(ItemView, Range)>
    decreases ls.len() - k,
{
    if k < 0 || k >= ls.len() {
        seq![]
    } else {
        let rest = incoming_from(ls, toks, k + 1, name, uri);
        match incoming_at(ls, toks, k, name, uri) {
            Some(x) => seq![x] + rest,
            None => rest,
        }
    }
}

/// The call made on line `k` to a function the script defines.
pub open spec fn outgoing_at(ls: Seq<Seq<char>>, toks: Seq<TokenType>, k: int, uri: Seq<char>) -> Option<(ItemView, Range)> {
    if 0 <= k < ls.len() {
        match called_function(text::trim(ls[k])) {
            Some(c) => match definition_from(ls, 0, c) {
                Some(d) => Some((function_item(ls, toks, d, c, uri), whole_line(k, ls[k]))),
                None => None,
            },
            None => None,
        }
    } else {
        None
    }
}

/// The calls made on lines `k` to `last` to functions the script defines.
pub open spec fn outgoing_from(ls: Seq<Seq<char>>, toks: Seq<TokenType>, k: int, last: int, uri: Seq<char>) -> Seq<(ItemView, Range)>
    decreases last + 1 - k,
{
    if k > last || k < 0 {
        seq![]
    } else {
        let rest = outgoing_from(ls, toks, k + 1, last, uri);
        match outgoing_at(ls, toks, k, uri) {
            Some(x) => seq![x] + rest,
            None => rest,
        }
    }
}

/// The calls made in the body of the function `name`.
pub open spec fn outgoing_calls(content: Seq<char>, name: Seq<char>, uri: Seq<char>) -> Seq<(ItemView, Range)> {
    let ls = text::lines(content);
    let toks = trimmed_tokens(ls);
    match definition_from(ls, 0, name) {
        Some(f) => {
            let b = body_lines(toks, f);
            outgoing_from(ls, toks, b.0, b.1, uri)
        },
        None => seq![],
    }
}

fn starts_with_builtin_exec(t: &[char]) -> (r: bool)
    ensures
        r == starts_with_builtin(t@),
{
    starts_with_str(t, "STRING") || starts_with_str(t, "STRINGLN") || starts_with_str(t, "DELAY") || starts_with_str(t, "IF") || starts_with_str(t, "WHILE") || starts_with_str(t, "VAR") || starts_with_str(t, "FUNCTION") || starts_with_str(t, "END_FUNCTION") || starts_with_str(t, "ENTER") || starts_with_str(t, "CTRL") || starts_with_str(t, "ALT") || starts_with_str(t, "GUI") || starts_with_str(t, "SHIFT") || starts_with_str(t, "REM") || starts_with_str(t, "DEFINE") || starts_with_str(t, "REPEAT") || starts_with_str(t, "HOLD") || starts_with_str(t, "RELEASE") || starts_with_str(t, "ATTACKMODE") || starts_with_str(t, "INJECT") || starts_with_str(t, "KEYCODE") || starts_with_str(t, "ELSE") || starts_with_str(t, "ELSE_IF") || starts_with_str(t, "END_IF") || starts_with_str(t, "END_WHILE") || starts_with_str(t, "RETURN") || starts_with_str(t, "INJECT_VAR") || starts_with_str(t, "EXFIL")
}

fn name_chars_exec(w: &[char]) -> (r: bool)
    ensures
        r == name_chars(w@),
{
    let mut k: usize = 0;
    while k < w.len()
        invariant
            k <= w@.len(),
            forall|m: int| 0 <= m < k ==> alphanumeric(#[trigger] w@[m]) || w@[m] == '_',
        decreases w@.len() - k,
    {
        if !(is_alphanumeric(w[k]) || w[k] == '_') {
            return false;
        }
        k = k + 1;
    }
    true
}

/// The function a line calls, if any.
fn extract_function_call(line: &[char]) -> (r: Option<Vec<char>>)
    ensures
        match r {
            Some(w) => called_function(line@) == Some(w@) && w@.len() <= line@.len(),
            None => called_function(line@) is None,
        },
{
    let t = trim_chars(line);
    proof {
        text::lemma_trim_len(line@);
    }
    if starts_with_builtin_exec(t) {
        return None;
    }
    let w = before_char(t, ' ');
    if name_chars_exec(w) {
        Some(to_chars(w))
    } else {
        None
    }
}

fn to_chars(s: &[char]) -> (r: Vec<char>)
    ensures
        r@ == s@,
{
    let mut v: Vec<char> = Vec::new();
    push_all(&mut v, s);
    v
}

/// Whether `line` defines the function `name`.
fn defines_function_exec(line: &[char], name: &[char]) -> (r: bool)
    ensures
        r == defines_function(line@, name@),
{
    let t = trim_chars(line);
    if !starts_with_str(t, "FUNCTION ") {
        return false;
    }
    match word_after_exec(t, "FUNCTION ") {
        Some(w) => eq_chars(w.as_slice(), name),
        None => false,
    }
}

/// The first line that defines `name`.
fn find_function_definition(lines: &Vec<Vec<char>>, name: &[char]) -> (r: Option<usize>)
    ensures
        match r {
            Some(d) => definition_from(view_all(lines@), 0, name@) == Some(d as int) && d < lines@.len(),
            None => definition_from(view_all(lines@), 0, name@) is None,
        },
{
    let mut k: usize = 0;
    while k < lines.len()
        invariant
            k <= lines@.len(),
            definition_from(view_all(lines@), 0, name@) == definition_from(
                view_all(lines@),
                k as int,
                name@,
            ),
        decreases lines@.len() - k,
    {
        assert(view_all(lines@)[k as int] == lines@[k as int]@);
        if defines_function_exec(lines[k].as_slice(), name) {
            return Some(k);
        }
        k = k + 1;
    }
    None
}

/// The line that ends the function defined on line `s`.
fn function_end_exec(toks: &Vec<TokenType>, s: usize) -> (r: Option<usize>)
    requires
        s < toks@.len(),
    ensures
        match r {
            Some(j) => function_end(toks@, s + 1, 1) == Some(j as int) && s < j < toks@.len(),
            None => function_end(toks@, s + 1, 1) is None,
        },
{
    let n = toks.len();
    let mut depth: usize = 1;
    let mut k: usize = s + 1;
    while k < toks.len()
        invariant
            s < k <= toks@.len(),
            1 <= depth <= k - s,
            function_end(toks@, s + 1, 1) == function_end(toks@, k as int, depth as int),
        decreases toks@.len() - k,
    {
        let t = toks[k];
        if t == TokenType::Function {
            depth = depth + 1;
        } else if t == TokenType::EndFunction {
            if depth == 1 {
                return Some(k);
            }
            depth = depth - 1;
        }
        k = k + 1;
    }
    None
}

fn get_function_range(toks: &Vec<TokenType>, s: usize) -> (r: Range)
    requires
        s < toks@.len(),
        toks@.len() <= MAX_DOCUMENT_CHARS,
    ensures
        r == function_range(toks@, s as int),
{
    let e = match function_end_exec(toks, s) {
        Some(j) => j,
        None => s,
    };
    Range {
        start: Position { line: s as u32, character: 0 },
        end: Position { line: (e + 1) as u32, character: 0 },
    }
}

/// The item of the function `name` defined on line `d`.
fn make_item(lines: &Vec<Vec<char>>, toks: &Vec<TokenType>, d: usize, name: &[char], uri: &str) -> (r: CallHierarchyItem)
    requires
        d < lines@.len(),
        toks@.len() == lines@.len(),
        lines@.len() <= MAX_DOCUMENT_CHARS,
        lines@[d as int]@.len() <= MAX_DOCUMENT_CHARS,
        name@.len() <= MAX_DOCUMENT_CHARS,
    ensures
        item_is(r, function_item(view_all(lines@), toks@, d as int, name@, uri@)),
{
    assert(view_all(lines@)[d as int] == lines@[d as int]@);
    let range = get_function_range(toks, d);
    let sel = name_range_exec(lines[d].as_slice(), d, name);
    CallHierarchyItem {
        name: string_of(name),
        kind: SymbolKind::Function,
        detail: Some(string_of(chars_of("DuckyScript Function").as_slice())),
        uri: string_of(chars_of(uri).as_slice()),
        range,
        selection_range: sel,
    }
}

/// The lines of a script, with the facts the calls below need.
fn script_lines(content: &str) -> (r: (Vec<Vec<char>>, Vec<TokenType>))
    requires
        content@.len() <= MAX_DOCUMENT_CHARS,
    ensures
        view_all(r.0@) == text::lines(content@),
        r.1@ == trimmed_tokens(view_all(r.0@)),
        r.0@.len() <= MAX_DOCUMENT_CHARS,
        forall|m: int| 0 <= m < r.0@.len() ==> (#[trigger] r.0@[m])@.len() <= MAX_DOCUMENT_CHARS,
{
    let c = chars_of(content);
    let lines = split_lines(c.as_slice());
    let toks = trimmed_tokens_of(&lines);
    proof {
        text::lemma_lines_bound(c@);
        assert forall|m: int| 0 <= m < lines@.len() implies (#[trigger] lines@[m])@.len()
            <= MAX_DOCUMENT_CHARS by {
            assert(lines@[m]@ == text::lines(c@)[m]);
        }
    }
    (lines, toks)
}

/// The item for a position: the function defined on that line, or the one
/// called there when the script defines it.
pub fn prepare_call_hierarchy(content: &str, position: Position, uri: &str) -> (r: Option<Vec<CallHierarchyItem>>)
    requires
        content@.len() <= MAX_DOCUMENT_CHARS,
    ensures
        match r {
            Some(v) => match prepare_item(content@, position, uri@) {
                Some(it) => v@.len() == 1 && item_is(v@[0], it),
                None => false,
            },
            None => prepare_item(content@, position, uri@) is None,
        },
{
    let (lines, toks) = script_lines(content);
    let k = position.line as usize;
    if k >= lines.len() {
        return None;
    }
    let line = lines[k].as_slice();
    assert(view_all(lines@)[k as int] == line@);
    let t = trim_chars(line);
    proof {
        text::lemma_trim_len(line@);
    }
    if starts_with_str(t, "FUNCTION ") {
        match word_after_exec(t, "FUNCTION ") {
            Some(w) => {
                let it = make_item(&lines, &toks, k, w.as_slice(), uri);
                return Some(vec![it]);
            },
            None => {},
        }
    }
    match extract_function_call(t) {
        Some(f) => match find_function_definition(&lines, f.as_slice()) {
            Some(d) => {
                let it = make_item(&lines, &toks, d, f.as_slice(), uri);
                Some(vec![it])
            },
            None => None,
        },
        None => None,
    }
}

/// The view of the function found so far.
pub open spec fn cur_view(c: Option<(Vec<char>, usize)>) -> Option<(Seq<char>, int)> {
    match c {
        Some((n, l)) => Some((n@, l as int)),
        None => None,
    }
}

/// The function open at line `upto`: its name and the line that defines it.
fn find_containing_function(lines: &Vec<Vec<char>>, toks: &Vec<TokenType>, upto: usize) -> (r: Option<(Vec<char>, usize)>)
    requires
        toks@ == trimmed_tokens(view_all(lines@)),
        lines@.len() <= MAX_DOCUMENT_CHARS,
    ensures
        cur_view(r) == containing_from(view_all(lines@), toks@, 0, upto as int, None, 0),
        match r {
            Some((n, l)) => l < lines@.len() && n@.len() <= lines@[l as int]@.len(),
            None => true,
        },
{
    let mut cur: Option<(Vec<char>, usize)> = None;
    let mut depth: i64 = 0;
    let mut k: usize = 0;
    while k < lines.len() && k <= upto
        invariant
            k <= lines@.len(),
            toks@ == trimmed_tokens(view_all(lines@)),
            lines@.len() <= MAX_DOCUMENT_CHARS,
            -(k as int) <= depth <= k,
            containing_from(view_all(lines@), toks@, 0, upto as int, None, 0) == containing_from(
                view_all(lines@),
                toks@,
                k as int,
                upto as int,
                cur_view(cur),
                depth as int,
            ),
            match cur {
                Some((n, l)) => l < lines@.len() && n@.len() <= lines@[l as int]@.len(),
                None => true,
            },
        decreases lines@.len() - k,
    {
        assert(view_all(lines@)[k as int] == lines@[k as int]@);
        let t = toks[k];
        if t == TokenType::Function {
            let line = lines[k].as_slice();
            let tt = trim_chars(line);
            proof {
                text::lemma_trim_len(line@);
            }
            match word_after_exec(tt, "FUNCTION ") {
                Some(n) => {
                    if depth == 0 {
                        cur = Some((n, k));
                    }
                    depth = depth + 1;
                },
                None => {},
            }
        } else if t == TokenType::EndFunction {
            depth = depth - 1;
            if depth == 0 {
                cur = None;
            }
        }
        k = k + 1;
    }
    cur
}

/// Whether each call is the one described at the same place.
pub open spec fn incoming_match(v: Seq<CallHierarchyIncomingCall>, s: Seq<(ItemView, Range)>) -> bool {
    &&& v.len() == s.len()
    &&& forall|i: int|
        0 <= i < v.len() ==> item_is(#[trigger] v[i].from, s[i].0) && v[i].from_ranges@ == seq![
            s[i].1,
        ]
}

/// Whether each call is the one described at the same place.
pub open spec fn outgoing_match(v: Seq<CallHierarchyOutgoingCall>, s: Seq<(ItemView, Range)>) -> bool {
    &&& v.len() == s.len()
    &&& forall|i: int|
        0 <= i < v.len() ==> item_is(#[trigger] v[i].to, s[i].0) && v[i].from_ranges@ == seq![
            s[i].1,
        ]
}

fn whole_line_exec(k: usize, line: &[char]) -> (r: Range)
    requires
        k <= MAX_DOCUMENT_CHARS,
        line@.len() <= MAX_DOCUMENT_CHARS,
    ensures
        r == whole_line(k as int, line@),
{
    proof {
        text::lemma_utf8_len_bound(line@);
    }
    let n = text::utf8_len_sat(line);
    Range {
        start: Position { line: k as u32, character: 0 },
        end: Position { line: k as u32, character: n as u32 },
    }
}

/// The call to `name` on line `k`, if any.
#[verifier::spinoff_prover]
fn incoming_step(lines: &Vec<Vec<char>>, toks: &Vec<TokenType>, k: usize, name: &[char], uri: &str) -> (r: Option<CallHierarchyIncomingCall>)
    requires
        k < lines@.len(),
        toks@ == trimmed_tokens(view_all(lines@)),
        lines@.len() <= MAX_DOCUMENT_CHARS,
        forall|m: int| 0 <= m < lines@.len() ==> (#[trigger] lines@[m])@.len() <= MAX_DOCUMENT_CHARS,
    ensures
        match (r, incoming_at(view_all(lines@), toks@, k as int, name@, uri@)) {
            (Some(c), Some(x)) => item_is(c.from, x.0) && c.from_ranges@ == seq![x.1],
            (None, None) => true,
            _ => false,
        },
{
    let line = lines[k].as_slice();
    assert(view_all(lines@)[k as int] == line@);
    let t = trim_chars(line);
    proof {
        text::lemma_trim_len(line@);
    }
    if starts_with_str(t, "FUNCTION ") {
        return None;
    }
    match extract_function_call(t) {
        Some(f) => {
            if eq_chars(f.as_slice(), name) {
                match find_containing_function(lines, toks, k) {
                    Some((cn, cl)) => {
                        let from = make_item(lines, toks, cl, cn.as_slice(), uri);
                        let range = whole_line_exec(k, line);
                        Some(CallHierarchyIncomingCall { from, from_ranges: vec![range] })
                    },
                    None => None,
                }
            } else {
                None
            }
        },
        None => None,
    }
}

/// The calls to the function of `item`: for each line (other than a
/// definition) that calls it from inside a function, that function and the
/// line of the call.
pub fn get_incoming_calls(content: &str, item: &CallHierarchyItem, uri: &str) -> (r: Vec<CallHierarchyIncomingCall>)
    requires
        content@.len() <= MAX_DOCUMENT_CHARS,
    ensures
        incoming_match(
            r@,
            incoming_from(
                text::lines(content@),
                trimmed_tokens(text::lines(content@)),
                0,
                item.name@,
                uri@,
            ),
        ),
{
    let (lines, toks) = script_lines(content);
    let ghost ls = view_all(lines@);
    let name = chars_of(item.name.as_str());
    let mut calls: Vec<CallHierarchyIncomingCall> = Vec::new();
    let ghost mut done: Seq<(ItemView, Range)> = seq![];
    let mut k: usize = 0;
    while k < lines.len()
        invariant
            k <= lines@.len(),
            ls == view_all(lines@),
            toks@ == trimmed_tokens(ls),
            lines@.len() <= MAX_DOCUMENT_CHARS,
            forall|m: int| 0 <= m < lines@.len() ==> (#[trigger] lines@[m])@.len() <= MAX_DOCUMENT_CHARS,
            name@ == item.name@,
            done + incoming_from(ls, toks@, k as int, name@, uri@) == incoming_from(
                ls,
                toks@,
                0,
                name@,
                uri@,
            ),
            incoming_match(calls@, done),
        decreases lines@.len() - k,
    {
        let step = incoming_step(&lines, &toks, k, name.as_slice(), uri);
        match step {
            Some(call) => {
                proof {
                    let x = incoming_at(ls, toks@, k as int, name@, uri@)->0;
                    assert(done.push(x) + incoming_from(ls, toks@, k + 1, name@, uri@) =~= done
                        + incoming_from(ls, toks@, k as int, name@, uri@));
                    done = done.push(x);
                }
                calls.push(call);
            },
            None => {},
        }
        k = k + 1;
    }
    calls
}

/// The call made on line `k` to a function the script defines, if any.
#[verifier::spinoff_prover]
fn outgoing_step(lines: &Vec<Vec<char>>, toks: &Vec<TokenType>, k: usize, uri: &str) -> (r: Option<CallHierarchyOutgoingCall>)
    requires
        toks@ == trimmed_tokens(view_all(lines@)),
        lines@.len() <= MAX_DOCUMENT_CHARS,
        forall|m: int| 0 <= m < lines@.len() ==> (#[trigger] lines@[m])@.len() <= MAX_DOCUMENT_CHARS,
    ensures
        match (r, outgoing_at(view_all(lines@), toks@, k as int, uri@)) {
            (Some(c), Some(x)) => item_is(c.to, x.0) && c.from_ranges@ == seq![x.1],
            (None, None) => true,
            _ => false,
        },
{
    if k >= lines.len() {
        return None;
    }
    let line = lines[k].as_slice();
    assert(view_all(lines@)[k as int] == line@);
    let t = trim_chars(line);
    proof {
        text::lemma_trim_len(line@);
    }
    match extract_function_call(t) {
        Some(c) => match find_function_definition(lines, c.as_slice()) {
            Some(d) => {
                let to = make_item(lines, toks, d, c.as_slice(), uri);
                let range = whole_line_exec(k, line);
                Some(CallHierarchyOutgoingCall { to, from_ranges: vec![range] })
            },
            None => None,
        },
        None => None,
    }
}

/// The calls in the body of the function of `item` to functions the script
/// defines: each called function and the line of the call.
pub fn get_outgoing_calls(content: &str, item: &CallHierarchyItem, uri: &str) -> (r: Vec<CallHierarchyOutgoingCall>)
    requires
        content@.len() <= MAX_DOCUMENT_CHARS,
    ensures
        outgoing_match(r@, outgoing_calls(content@, item.name@, uri@)),
{
    let (lines, toks) = script_lines(content);
    let ghost ls = view_all(lines@);
    let name = chars_of(item.name.as_str());
    let mut calls: Vec<CallHierarchyOutgoingCall> = Vec::new();
    let f = match find_function_definition(&lines, name.as_slice()) {
        Some(f) => f,
        None => {
            return calls;
        },
    };
    let last: usize = match function_end_exec(&toks, f) {
        Some(j) => j - 1,
        None => f + 1,
    };
    assert(body_lines(toks@, f as int) == (f + 1, last as int));
    let ghost mut done: Seq<(ItemView, Range)> = seq![];
    let mut k: usize = f + 1;
    while k <= last
        invariant
            f < k,
            last <= lines@.len(),
            ls == view_all(lines@),
            toks@ == trimmed_tokens(ls),
            lines@.len() <= MAX_DOCUMENT_CHARS,
            forall|m: int| 0 <= m < lines@.len() ==> (#[trigger] lines@[m])@.len() <= MAX_DOCUMENT_CHARS,
            done + outgoing_from(ls, toks@, k as int, last as int, uri@) == outgoing_from(
                ls,
                toks@,
                f + 1,
                last as int,
                uri@,
            ),
            outgoing_match(calls@, done),
        decreases last + 1 - k,
    {
        let step = outgoing_step(&lines, &toks, k, uri);
        match step {
            Some(call) => {
                proof {
                    let x = outgoing_at(ls, toks@, k as int, uri@)->0;
                    assert(done.push(x) + outgoing_from(ls, toks@, k + 1, last as int, uri@) =~= done
                        + outgoing_from(ls, toks@, k as int, last as int, uri@));
                    done = done.push(x);
                }
                calls.push(call);
            },
            None => {},
        }
        k = k + 1;
    }
    assert(done + outgoing_from(ls, toks@, k as int, last as int, uri@) =~= done);
    calls
}

} // verus!
