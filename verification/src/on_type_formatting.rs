//! Edits made as the user types: after a new line, the next line is indented
//! and a block that was just opened gets its closing line.
use vstd::prelude::*;

use crate::lexer::{tokenize_spec, tokenize_trimmed_chars, TokenType};
use crate::text::{self, chars_of, split_lines, string_of, trim_chars, view_all};
use crate::text_edit::{at, edits_view, Position, Range, TextEdit};

verus! {

/// The editor's layout settings that the edits follow.
#[derive(Debug, Clone, Copy)]
pub struct FormattingOptions {
    pub tab_size: u32,
    pub insert_spaces: bool,
}

/// `s` written `n` times (`str::repeat`).
pub open spec fn rep(s: Seq<char>, n: nat) -> Seq<char>
    decreases n,
{
    if n == 0 {
        seq![]
    } else {
        rep(s, (n - 1) as nat) + s
    }
}

/// One level of indentation: `tab_size` spaces, or a tab.
pub open spec fn indent_unit(o: FormattingOptions) -> Seq<char> {
    if o.insert_spaces {
        rep(seq![' '], o.tab_size as nat)
    } else {
        seq!['\t']
    }
}

/// The length of one level of indentation.
pub open spec fn indent_width(o: FormattingOptions) -> nat {
    if o.insert_spaces {
        o.tab_size as nat
    } else {
        1
    }
}

/// The number of spaces `s` starts with.
pub open spec fn leading_spaces(s: Seq<char>) -> nat
    decreases s.len(),
{
    if s.len() > 0 && s[0] == ' ' {
        1 + leading_spaces(s.drop_first())
    } else {
        0
    }
}

/// The indentation level of a line: one per leading tab, then the run of
/// spaces that follows divided by the width of a level.
pub open spec fn indent_level(s: Seq<char>, w: nat) -> nat
    decreases s.len(),
{
    if s.len() == 0 {
        0
    } else if s[0] == '\t' {
        1 + indent_level(s.drop_first(), w)
    } else if s[0] == ' ' {
        leading_spaces(s) / w
    } else {
        0
    }
}

/// Whether a run of spaces follows the leading tabs of `s` (the place where
/// the width of a level divides).
pub open spec fn indent_meets_space(s: Seq<char>) -> bool
    decreases s.len(),
{
    if s.len() == 0 {
        false
    } else if s[0] == '\t' {
        indent_meets_space(s.drop_first())
    } else {
        s[0] == ' '
    }
}

/// The token kind of each line, read from its trimmed text.
pub open spec fn trimmed_tokens(ls: Seq<Seq<char>>) -> Seq<TokenType> {
    ls.map_values(|l: Seq<char>| tokenize_spec(text::trim(text::trim(l))))
}

/// Whether the block opened before line `k` is closed from line `k` on, with
/// `depth` blocks of the same kind open: a line with `s` opens one more, a
/// line with `e` closes one.
pub open spec fn closed_from(toks: Seq<TokenType>, k: int, depth: int, s: TokenType, e: TokenType) -> bool
    decreases toks.len() - k,
{
    if k < 0 || k >= toks.len() {
        false
    } else if toks[k] == s {
        closed_from(toks, k + 1, depth + 1, s, e)
    } else if toks[k] == e {
        depth - 1 == 0 || closed_from(toks, k + 1, depth - 1, s, e)
    } else {
        closed_from(toks, k + 1, depth, s, e)
    }
}

/// Indentation inside the block, then a new line, the block's own
/// indentation and the line that closes it.
pub open spec fn with_closer(inner: Seq<char>, outer: Seq<char>, closer: Seq<char>) -> Seq<char> {
    inner + seq!['\n'] + outer + closer
}

/// The text to insert after the user typed `ch` at `pos`, if any.
pub open spec fn on_type_text(content: Seq<char>, pos: Position, ch: Seq<char>, o: FormattingOptions) -> Option<Seq<char>> {
    let ls = text::lines(content);
    if ch != seq!['\n'] || pos.line == 0 || pos.line - 1 >= ls.len() {
        None
    } else {
        let k = pos.line - 1;
        let toks = trimmed_tokens(ls);
        let cur = indent_level(ls[k], indent_width(o));
        let outer = rep(indent_unit(o), cur);
        let inner = rep(indent_unit(o), cur + 1);
        match toks[k] {
            TokenType::If | TokenType::ElseIf | TokenType::Else => if !closed_from(
                toks,
                k + 1,
                1,
                TokenType::If,
                TokenType::EndIf,
            ) {
                Some(with_closer(inner, outer, "END_IF"@))
            } else {
                Some(inner)
            },
            TokenType::While => if !closed_from(toks, k + 1, 1, TokenType::While, TokenType::EndWhile) {
                Some(with_closer(inner, outer, "END_WHILE"@))
            } else {
                Some(inner)
            },
            TokenType::Function => if !closed_from(
                toks,
                k + 1,
                1,
                TokenType::Function,
                TokenType::EndFunction,
            ) {
                Some(with_closer(inner, outer, "END_FUNCTION"@))
            } else {
                Some(inner)
            },
            TokenType::StringBlock | TokenType::StringLnBlock => Some(
                with_closer(inner, outer, "END_STRING"@),
            ),
            TokenType::RemBlock => Some(with_closer(inner, outer, "END_REM"@)),
            _ => if outer.len() > 0 {
                Some(outer)
            } else {
                None
            },
        }
    }
}

/// Whether the edit for `ch` at `pos` would divide by a zero-width level.
pub open spec fn indent_divides_by_zero(content: Seq<char>, pos: Position, ch: Seq<char>, o: FormattingOptions) -> bool {
    let ls = text::lines(content);
    &&& ch == seq!['\n']
    &&& pos.line > 0
    &&& pos.line - 1 < ls.len()
    &&& indent_width(o) == 0
    &&& indent_meets_space(ls[pos.line - 1])
}

pub(crate) fn push_all(v: &mut Vec<char>, s: &[char])
    ensures
        final(v)@ == old(v)@ + s@,
{
    let mut k: usize = 0;
    while k < s.len()
        invariant
            k <= s@.len(),
            v@ == old(v)@ + s@.take(k as int),
        decreases s@.len() - k,
    {
        v.push(s[k]);
        k = k + 1;
        assert(v@ =~= old(v)@ + s@.take(k as int));
    }
    assert(s@.take(k as int) =~= s@);
}

/// `unit` written `n` times.
pub(crate) fn repeat_chars(unit: &[char], n: usize) -> (r: Vec<char>)
    ensures
        r@ == rep(unit@, n as nat),
{
    let mut r: Vec<char> = Vec::new();
    let mut k: usize = 0;
    while k < n
        invariant
            k <= n,
            r@ == rep(unit@, k as nat),
        decreases n - k,
    {
        push_all(&mut r, unit);
        k = k + 1;
    }
    r
}

/// The indentation level of a line (`w` spaces to a level).
fn get_indent_level(line: &[char], w: usize) -> (r: usize)
    requires
        w > 0 || !indent_meets_space(line@),
    ensures
        r == indent_level(line@, w as nat),
{
    let mut level: usize = 0;
    let mut i: usize = 0;
    assert(line@.skip(0) =~= line@);
    while i < line.len() && line[i] == '\t'
        invariant
            i <= line@.len(),
            level == i,
            indent_level(line@, w as nat) == level + indent_level(line@.skip(i as int), w as nat),
            indent_meets_space(line@) == indent_meets_space(line@.skip(i as int)),
        decreases line@.len() - i,
    {
        assert(line@.skip(i as int).drop_first() =~= line@.skip(i + 1));
        level = level + 1;
        i = i + 1;
    }
    if i < line.len() && line[i] == ' ' {
        let mut j = i;
        while j < line.len() && line[j] == ' '
            invariant
                i <= j <= line@.len(),
                leading_spaces(line@.skip(i as int)) == (j - i) + leading_spaces(line@.skip(j as int)),
            decreases line@.len() - j,
        {
            assert(line@.skip(j as int).drop_first() =~= line@.skip(j + 1));
            j = j + 1;
        }
        assert(leading_spaces(line@.skip(j as int)) == 0);
        level = level + (j - i) / w;
    }
    level
}

/// Whether the block opened on line `start` is closed on a later line.
fn has_matching_end(toks: &Vec<TokenType>, start: usize, start_token: TokenType, end_token: TokenType) -> (r: bool)
    requires
        start < toks@.len(),
    ensures
        r == closed_from(toks@, start + 1, 1, start_token, end_token),
{
    let n = toks.len();
    let mut depth: usize = 1;
    let mut k: usize = start + 1;
    while k < toks.len()
        invariant
            start < k <= toks@.len(),
            1 <= depth <= k - start,
            closed_from(toks@, start + 1, 1, start_token, end_token) == closed_from(
                toks@,
                k as int,
                depth as int,
                start_token,
                end_token,
            ),
        decreases toks@.len() - k,
    {
        let t = toks[k];
        if t == start_token {
            depth = depth + 1;
        } else if t == end_token {
            depth = depth - 1;
            if depth == 0 {
                return true;
            }
        }
        k = k + 1;
    }
    false
}

/// The token kind of every line, read from its trimmed text.
pub(crate) fn trimmed_tokens_of(lines: &Vec<Vec<char>>) -> (r: Vec<TokenType>)
    ensures
        r@ == trimmed_tokens(view_all(lines@)),
{
    let mut r: Vec<TokenType> = Vec::new();
    let mut k: usize = 0;
    while k < lines.len()
        invariant
            k <= lines@.len(),
            r@ == trimmed_tokens(view_all(lines@)).take(k as int),
        decreases lines@.len() - k,
    {
        let t = trim_chars(trim_chars(lines[k].as_slice()));
        r.push(tokenize_trimmed_chars(t));
        k = k + 1;
        assert(r@ =~= trimmed_tokens(view_all(lines@)).take(k as int));
    }
    assert(r@ =~= trimmed_tokens(view_all(lines@)));
    r
}

fn closing_text(inner: &Vec<char>, outer: &Vec<char>, closer: &str) -> (r: String)
    ensures
        r@ == with_closer(inner@, outer@, closer@),
{
    let mut v: Vec<char> = Vec::new();
    push_all(&mut v, inner.as_slice());
    v.push('\n');
    push_all(&mut v, outer.as_slice());
    let c = chars_of(closer);
    push_all(&mut v, c.as_slice());
    assert(v@ =~= with_closer(inner@, outer@, closer@));
    string_of(v.as_slice())
}

/// The edits to make after the user typed `ch` at `position`: only a new
/// line is acted on. The next line is indented one level in after a line
/// that opens a block, and the block's closing line is added when no later
/// line closes it (string and comment blocks always get one); after any
/// other line the indentation of that line is kept.
pub fn get_on_type_formatting(content: &str, position: Position, ch: &str, options: &FormattingOptions) -> (r: Vec<TextEdit>)
    requires
        !indent_divides_by_zero(content@, position, ch@, *options),
    ensures
        edits_view(r@) == match on_type_text(content@, position, ch@, *options) {
            Some(t) => seq![(at(position), t)],
            None => Seq::<(Range, Seq<char>)>::empty(),
        },
{
    let mut edits: Vec<TextEdit> = Vec::new();
    let cc = chars_of(ch);
    if !(cc.len() == 1 && cc[0] == '\n') {
        assert(cc@ != seq!['\n']);
        return edits;
    }
    assert(cc@ =~= seq!['\n']);
    if position.line == 0 {
        return edits;
    }
    let c = chars_of(content);
    let lines = split_lines(c.as_slice());
    let k = (position.line - 1) as usize;
    if k >= lines.len() {
        return edits;
    }
    let toks = trimmed_tokens_of(&lines);
    let space: Vec<char> = vec![' '];
    assert(space@ =~= seq![' ']);
    let unit: Vec<char> = if options.insert_spaces {
        repeat_chars(space.as_slice(), options.tab_size as usize)
    } else {
        vec!['\t']
    };
    assert(unit@ =~= indent_unit(*options));
    let w: usize = if options.insert_spaces {
        options.tab_size as usize
    } else {
        1
    };
    let cur = get_indent_level(lines[k].as_slice(), w);
    let outer = repeat_chars(unit.as_slice(), cur);
    let mut inner = repeat_chars(unit.as_slice(), cur);
    push_all(&mut inner, unit.as_slice());
    assert(inner@ == rep(unit@, (cur + 1) as nat));
    let here = Range { start: position, end: position };
    let t = toks[k];
    let text: Option<String> = match t {
        TokenType::If | TokenType::ElseIf | TokenType::Else => {
            if !has_matching_end(&toks, k, TokenType::If, TokenType::EndIf) {
                Some(closing_text(&inner, &outer, "END_IF"))
            } else {
                Some(string_of(inner.as_slice()))
            }
        },
        TokenType::While => {
            if !has_matching_end(&toks, k, TokenType::While, TokenType::EndWhile) {
                Some(closing_text(&inner, &outer, "END_WHILE"))
            } else {
                Some(string_of(inner.as_slice()))
            }
        },
        TokenType::Function => {
            if !has_matching_end(&toks, k, TokenType::Function, TokenType::EndFunction) {
                Some(closing_text(&inner, &outer, "END_FUNCTION"))
            } else {
                Some(string_of(inner.as_slice()))
            }
        },
        TokenType::StringBlock | TokenType::StringLnBlock => Some(
            closing_text(&inner, &outer, "END_STRING"),
        ),
        TokenType::RemBlock => Some(closing_text(&inner, &outer, "END_REM")),
        _ => {
            if outer.len() > 0 {
                Some(string_of(outer.as_slice()))
            } else {
                None
            }
        },
    };
    match text {
        Some(s) => {
            let e = TextEdit { range: here, new_text: s };
            edits.push(e);
            assert(edits_view(edits@) =~= seq![e@]);
        },
        None => {
            assert(edits_view(edits@) =~= Seq::<(Range, Seq<char>)>::empty());
        },
    }
    edits
}

} // verus!
