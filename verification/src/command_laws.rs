//! What single commands and editor features do, stated over their inputs
//! and results.
use vstd::prelude::*;

use crate::folding_range::{self, FoldingRangeKind};
use crate::lexer::{self, TokenType};
use crate::model::{self, Model};
use crate::on_type_formatting;
use crate::preprocessor::{self, IfdefStack};
use crate::text;
use crate::text_edit::Position;

verus! {

/// A text whose first character differs from the first of `p` neither
/// starts with `p` nor equals it.
proof fn lemma_first_char_differs(t: Seq<char>, p: Seq<char>)
    requires
        t.len() > 0,
        p.len() > 0,
        t[0] != p[0],
    ensures
        !text::starts_with(t, p),
        t != p,
{
    if text::starts_with(t, p) {
        assert(t.take(p.len() as int)[0] == t[0]);
    }
}

/// A trimmed line that starts with `HOLD ` is read as a HOLD command.
pub proof fn lemma_hold_line_token(t: Seq<char>)
    requires
        text::starts_with(t, "HOLD "@),
    ensures
        lexer::tokenize_spec(t) is Hold,
{
    reveal_strlit("HOLD ");
    assert(t.take(5)[0] == t[0]);
    assert(t[0] == 'H');
    reveal_strlit("PREPROCESSOR_DISABLED");
    lemma_first_char_differs(t, "PREPROCESSOR_DISABLED"@);
    reveal_strlit("REM_BLOCK");
    lemma_first_char_differs(t, "REM_BLOCK"@);
    reveal_strlit("END_REM");
    lemma_first_char_differs(t, "END_REM"@);
    reveal_strlit("REM");
    lemma_first_char_differs(t, "REM"@);
    reveal_strlit("// ");
    lemma_first_char_differs(t, "// "@);
    reveal_strlit("DEFINE ");
    lemma_first_char_differs(t, "DEFINE "@);
    reveal_strlit("IF_DEFINED_TRUE ");
    lemma_first_char_differs(t, "IF_DEFINED_TRUE "@);
    reveal_strlit("IF_NOT_DEFINED_TRUE ");
    lemma_first_char_differs(t, "IF_NOT_DEFINED_TRUE "@);
    reveal_strlit("ELSE_DEFINED");
    lemma_first_char_differs(t, "ELSE_DEFINED"@);
    reveal_strlit("END_IF_DEFINED");
    lemma_first_char_differs(t, "END_IF_DEFINED"@);
    reveal_strlit("INJECT_VAR $");
    lemma_first_char_differs(t, "INJECT_VAR $"@);
    reveal_strlit("DELAY $");
    lemma_first_char_differs(t, "DELAY $"@);
    reveal_strlit("DELAY ");
    lemma_first_char_differs(t, "DELAY "@);
    reveal_strlit("END_STRING");
    lemma_first_char_differs(t, "END_STRING"@);
    reveal_strlit("END_STRINGLN");
    lemma_first_char_differs(t, "END_STRINGLN"@);
    reveal_strlit("STRINGLN");
    lemma_first_char_differs(t, "STRINGLN"@);
    reveal_strlit("STRING");
    lemma_first_char_differs(t, "STRING"@);
}

/// Compiling only adds to the output: injecting keys keeps what was
/// written before.
proof fn lemma_inject_keys_extends(m: Model, keys: Seq<Seq<char>>)
    ensures
        model::inject_keys(m, keys).0.out.len() >= m.out.len(),
        model::inject_keys(m, keys).0.out.take(m.out.len() as int) == m.out,
    decreases keys.len(),
{
    if keys.len() > 0 {
        let r = model::inject_key(m, keys[0]);
        assert(r.0.out.len() >= m.out.len() && r.0.out.take(m.out.len() as int) == m.out) by {
            match model::codes(m, keys[0]) {
                None => {},
                Some(c) => {
                    let ts = model::key_tokens(c);
                    if crate::encoder::strings_cut_ok(ts) {
                        let b = crate::encoder::strings_bytes(ts);
                        assert((m.out + b).take(m.out.len() as int) =~= m.out);
                    }
                },
            }
        }
        if r.1 is None {
            lemma_inject_keys_extends(r.0, keys.drop_first());
            let o = model::inject_keys(r.0, keys.drop_first()).0.out;
            assert(o.take(m.out.len() as int) =~= o.take(r.0.out.len() as int).take(m.out.len() as int));
        }
    }
}

/// A HOLD line writes the hold opcode `F8FF` (bytes `FF F8`) right after
/// what was written before, and then the codes of the held keys: on any
/// state outside comment and string blocks, for any line whose trimmed text
/// starts with `HOLD ` and names at least one key.
pub proof fn law_hold_writes_hold_opcode(m: Model, line: Seq<char>)
    requires
        !m.in_rem,
        !m.in_string,
        !m.in_stringln,
        text::starts_with(text::trim(line), "HOLD "@),
        text::words(line).len() >= 2,
    ensures
        model::process_line(m, line).0.out.len() >= m.out.len() + 2,
        model::process_line(m, line).0.out.take(m.out.len() as int) == m.out,
        model::process_line(m, line).0.out[m.out.len() as int] == 0xFFu8,
        model::process_line(m, line).0.out[m.out.len() + 1int] == 0xF8u8,
{
    let t = text::trim(line);
    lemma_hold_line_token(t);
    reveal_strlit("HOLD ");
    assert(t.len() > 0);
    let m1 = Model { last_command: line, ..m };
    assert(model::process_line(m, line) == model::handle_hold(m1, line));
    let m2 = model::emit(m1, seq![0xFFu8, 0xF8u8]);
    assert(model::code_bytes(0xF8FF) =~= seq![0xFFu8, 0xF8u8]);
    lemma_inject_keys_extends(m2, text::words(line).skip(1));
    let o = model::process_line(m, line).0.out;
    assert(o.take(m2.out.len() as int) == m2.out);
    assert(o.take(m.out.len() as int) =~= m2.out.take(m.out.len() as int));
    assert(o[m.out.len() as int] == o.take(m2.out.len() as int)[m.out.len() as int]);
    assert(o[m.out.len() + 1int] == o.take(m2.out.len() as int)[m.out.len() + 1int]);
}


/// A trimmed line that is none of the conditional-block directives.
pub open spec fn no_directive(t: Seq<char>) -> bool {
    !lexer::is_ifdef_spec(t) && !lexer::is_ifnotdef_spec(t) && !lexer::is_elsedef_spec(t)
        && !lexer::is_endifdef_spec(t)
}

/// The open conditional blocks after the first `x` lines.
spec fn stack_upto(defs: Seq<(Seq<char>, Seq<char>)>, lines: Seq<Seq<char>>, x: int) -> IfdefStack
    decreases x,
{
    if x <= 0 {
        Seq::empty()
    } else {
        preprocessor::ifdef_step(defs, stack_upto(defs, lines, x - 1), text::trim(lines[x - 1]))
    }
}

proof fn lemma_ifdefs_at(defs: Seq<(Seq<char>, Seq<char>)>, lines: Seq<Seq<char>>, i: int, x: int)
    requires
        0 <= i <= x < lines.len(),
    ensures
        preprocessor::ifdefs_from(defs, lines, i, stack_upto(defs, lines, i)).len() > x - i,
        preprocessor::ifdefs_from(defs, lines, i, stack_upto(defs, lines, i))[x - i] == (
        if preprocessor::ifdef_enabled(stack_upto(defs, lines, x + 1)) {
            lines[x]
        } else {
            "PREPROCESSOR_DISABLED "@ + lines[x]
        }),
    decreases x - i,
{
    assert(stack_upto(defs, lines, i + 1) == preprocessor::ifdef_step(
        defs,
        stack_upto(defs, lines, i),
        text::trim(lines[i]),
    ));
    if x > i {
        lemma_ifdefs_at(defs, lines, i + 1, x);
    }
}

/// Lines with no directive leave the open blocks as they are.
proof fn lemma_stack_plain(defs: Seq<(Seq<char>, Seq<char>)>, lines: Seq<Seq<char>>, a: int, x: int)
    requires
        0 <= a <= x <= lines.len(),
        forall|k: int| a <= k < x ==> no_directive(#[trigger] text::trim(lines[k])),
    ensures
        stack_upto(defs, lines, x) == stack_upto(defs, lines, a),
    decreases x - a,
{
    if x > a {
        lemma_stack_plain(defs, lines, a, x - 1);
        assert(no_directive(text::trim(lines[x - 1])));
    }
}

/// ELSE_DEFINED turns over the condition of the block it stands in: in
/// `IF_DEFINED_TRUE X ... ELSE_DEFINED ... END_IF_DEFINED` (or the same with
/// IF_NOT_DEFINED_TRUE) with no other block open, a line of the first branch
/// is kept exactly when a line of the second branch is disabled.
pub proof fn law_else_defined_inverts(
    defs: Seq<(Seq<char>, Seq<char>)>,
    lines: Seq<Seq<char>>,
    i: int,
    a: int,
    j: int,
    b: int,
)
    requires
        0 <= i < a < j < b < lines.len(),
        lexer::is_ifdef_spec(text::trim(lines[i])) || lexer::is_ifnotdef_spec(text::trim(lines[i])),
        text::trim(lines[j]) == "ELSE_DEFINED"@,
        forall|k: int| 0 <= k <= b && k != i && k != j ==> no_directive(#[trigger] text::trim(lines[k])),
    ensures
        ({
            let out = preprocessor::ifdefs_from(defs, lines, 0, Seq::empty());
            &&& out.len() > b
            &&& (out[a] == lines[a]) != (out[b] == lines[b])
        }),
{
    let out = preprocessor::ifdefs_from(defs, lines, 0, Seq::empty());
    assert(stack_upto(defs, lines, 0) == Seq::<(bool, bool)>::empty());
    lemma_ifdefs_at(defs, lines, 0, a);
    lemma_ifdefs_at(defs, lines, 0, b);
    lemma_stack_plain(defs, lines, 0, i);
    let s1 = stack_upto(defs, lines, i + 1);
    assert(s1.len() == 1);
    lemma_stack_plain(defs, lines, i + 1, a + 1);
    lemma_stack_plain(defs, lines, i + 1, j);
    let tj = text::trim(lines[j]);
    reveal_strlit("ELSE_DEFINED");
    reveal_strlit("IF_DEFINED_TRUE ");
    reveal_strlit("IF_NOT_DEFINED_TRUE ");
    lemma_first_char_differs(tj, "IF_DEFINED_TRUE "@);
    lemma_first_char_differs(tj, "IF_NOT_DEFINED_TRUE "@);
    let s2 = stack_upto(defs, lines, j + 1);
    assert(s2 == s1.drop_last().push((s1.last().0, !s1.last().1)));
    assert(s2.len() == 1 && s2[0] == (s1[0].0, !s1[0].1));
    lemma_stack_plain(defs, lines, j + 1, b + 1);
    assert(preprocessor::ifdef_enabled(s1) == (s1[0].0 == s1[0].1));
    assert(preprocessor::ifdef_enabled(s2) == (s1[0].0 != s1[0].1));
    reveal_strlit("PREPROCESSOR_DISABLED ");
    assert(("PREPROCESSOR_DISABLED "@ + lines[a]).len() != lines[a].len());
    assert(("PREPROCESSOR_DISABLED "@ + lines[b]).len() != lines[b].len());
}

/// The blocks that fold, with the line that ends each, the kind of range
/// and the text shown in its place.
pub open spec fn folding_block(
    open: TokenType,
    close: TokenType,
    kind: FoldingRangeKind,
    shown: Seq<char>,
) -> bool {
    ||| (open is Function && close is EndFunction && kind is Region && shown == "function..."@)
    ||| (open is If && close is EndIf && kind is Region && shown == "if..."@)
    ||| (open is While && close is EndWhile && kind is Region && shown == "while..."@)
    ||| (open is Extension && close is EndExtension && kind is Region && shown == "extension..."@)
    ||| (open is Stage && close is EndStage && kind is Region && shown == "stage..."@)
    ||| (open is ButtonDef && close is EndButtonDef && kind is Region && shown == "button..."@)
    ||| (open is RemBlock && close is EndRemBlock && kind is Comment && shown == "/* ... */"@)
    ||| ((open is StringBlock || open is StringLnBlock) && close is EndString && kind is Region
        && shown == "string..."@)
}

/// A line that opens a block is folded to the first later line that ends
/// that kind of block: the range runs from the opening line to that line,
/// with the block's kind and shown text (`function...`, `if...`,
/// `while...`, ...; a comment block is a comment range).
pub proof fn law_block_folds_to_its_end(
    toks: Seq<TokenType>,
    i: int,
    j: int,
    close: TokenType,
    kind: FoldingRangeKind,
    shown: Seq<char>,
)
    requires
        0 <= i < j < toks.len(),
        folding_block(toks[i], close, kind, shown),
        toks[j] == close,
        forall|m: int| i < m < j ==> #[trigger] toks[m] != close,
    ensures
        folding_range::folds_from(toks, i).len() > 0,
        folding_range::folds_from(toks, i)[0] == (i as u32, j as u32, kind, shown),
{
    folding_range::lemma_find_end_from(toks, i + 1, close);
    match folding_range::find_end_from(toks, i + 1, close) {
        Some(k) => {
            if k < j {
                assert(toks[k] == close);
            }
            if k > j {
                assert(toks[j] != close);
            }
        },
        None => {
            assert(toks[j] != close);
        },
    }
}

/// A WHILE line is folded to the first END_WHILE line after it.
pub proof fn law_while_folds_to_end_while(toks: Seq<TokenType>, i: int, j: int)
    requires
        0 <= i < j < toks.len(),
        toks[i] is While,
        toks[j] is EndWhile,
        forall|m: int| i < m < j ==> !(#[trigger] toks[m] is EndWhile),
    ensures
        folding_range::folds_from(toks, i).len() > 0,
        folding_range::folds_from(toks, i)[0] == (
            i as u32,
            j as u32,
            FoldingRangeKind::Region,
            "while..."@,
        ),
{
    assert forall|m: int| i < m < j implies #[trigger] toks[m] != TokenType::EndWhile by {
        assert(!(toks[m] is EndWhile));
    }
    law_block_folds_to_its_end(toks, i, j, TokenType::EndWhile, FoldingRangeKind::Region, "while..."@);
}

/// The same at the level of a script: when its first line is a WHILE line,
/// its first folding range runs from there to the first END_WHILE line.
pub proof fn law_script_while_folds(content: Seq<char>, j: int)
    requires
        0 < j < text::lines(content).len(),
        lexer::tokenize_spec(text::trim(text::lines(content)[0])) is While,
        lexer::tokenize_spec(text::trim(text::lines(content)[j])) is EndWhile,
        forall|m: int|
            0 < m < j ==> !(#[trigger] lexer::tokenize_spec(text::trim(text::lines(content)[m])) is EndWhile),
    ensures
        folding_range::folding_ranges(content).len() > 0,
        folding_range::folding_ranges(content)[0] == (
            0u32,
            j as u32,
            FoldingRangeKind::Region,
            "while..."@,
        ),
{
    let toks = folding_range::line_tokens(text::lines(content));
    assert forall|m: int| 0 < m < j implies !(#[trigger] toks[m] is EndWhile) by {
        assert(toks[m] == lexer::tokenize_spec(text::trim(text::lines(content)[m])));
    }
    law_while_folds_to_end_while(toks, 0, j);
}

/// A trimmed line that starts with `RELEASE ` is read as a RELEASE command.
pub proof fn lemma_release_line_token(t: Seq<char>)
    requires
        text::starts_with(t, "RELEASE "@),
    ensures
        lexer::tokenize_spec(t) is Release,
{
    reveal_strlit("RELEASE ");
    assert(t.take(8)[0] == t[0]);
    assert(t.take(8)[1] == t[1]);
    assert(t[0] == 'R' && t[1] == 'E');
    reveal_strlit("PREPROCESSOR_DISABLED");
    lemma_first_char_differs(t, "PREPROCESSOR_DISABLED"@);
    reveal_strlit("REM_BLOCK");
    reveal_strlit("REM");
    assert(!text::starts_with(t, "REM_BLOCK"@)) by {
        if text::starts_with(t, "REM_BLOCK"@) {
            assert(t.take(9)[2] == t[2]);
            assert(t.take(8)[2] == t[2]);
        }
    }
    assert(!text::starts_with(t, "REM"@)) by {
        if text::starts_with(t, "REM"@) {
            assert(t.take(3)[2] == t[2]);
            assert(t.take(8)[2] == t[2]);
        }
    }
    reveal_strlit("END_REM");
    lemma_first_char_differs(t, "END_REM"@);
    reveal_strlit("// ");
    lemma_first_char_differs(t, "// "@);
    reveal_strlit("DEFINE ");
    lemma_first_char_differs(t, "DEFINE "@);
    reveal_strlit("IF_DEFINED_TRUE ");
    lemma_first_char_differs(t, "IF_DEFINED_TRUE "@);
    reveal_strlit("IF_NOT_DEFINED_TRUE ");
    lemma_first_char_differs(t, "IF_NOT_DEFINED_TRUE "@);
    reveal_strlit("ELSE_DEFINED");
    lemma_first_char_differs(t, "ELSE_DEFINED"@);
    reveal_strlit("END_IF_DEFINED");
    lemma_first_char_differs(t, "END_IF_DEFINED"@);
    reveal_strlit("INJECT_VAR $");
    lemma_first_char_differs(t, "INJECT_VAR $"@);
    reveal_strlit("DELAY $");
    lemma_first_char_differs(t, "DELAY $"@);
    reveal_strlit("DELAY ");
    lemma_first_char_differs(t, "DELAY "@);
    reveal_strlit("END_STRING");
    lemma_first_char_differs(t, "END_STRING"@);
    reveal_strlit("END_STRINGLN");
    lemma_first_char_differs(t, "END_STRINGLN"@);
    reveal_strlit("STRINGLN");
    lemma_first_char_differs(t, "STRINGLN"@);
    reveal_strlit("STRING");
    lemma_first_char_differs(t, "STRING"@);
    reveal_strlit("HOLD ");
    lemma_first_char_differs(t, "HOLD "@);
}

/// A RELEASE line that names a key writes the release opcode `E8EE`
/// (bytes `EE E8`) right after what was written before, and then the codes
/// of the released keys.
pub proof fn law_release_writes_release_opcode(m: Model, line: Seq<char>)
    requires
        !m.in_rem,
        !m.in_string,
        !m.in_stringln,
        text::starts_with(text::trim(line), "RELEASE "@),
        text::words(line).len() >= 2,
    ensures
        model::process_line(m, line).0.out.len() >= m.out.len() + 2,
        model::process_line(m, line).0.out.take(m.out.len() as int) == m.out,
        model::process_line(m, line).0.out[m.out.len() as int] == 0xEEu8,
        model::process_line(m, line).0.out[m.out.len() + 1int] == 0xE8u8,
{
    let t = text::trim(line);
    lemma_release_line_token(t);
    reveal_strlit("RELEASE ");
    assert(t.len() > 0);
    let m1 = Model { last_command: line, ..m };
    assert(model::process_line(m, line) == model::handle_release(m1, line));
    let m2 = model::emit(m1, seq![0xEEu8, 0xE8u8]);
    assert(model::code_bytes(0xE8EE) =~= seq![0xEEu8, 0xE8u8]);
    lemma_inject_keys_extends(m2, text::words(line).skip(1));
    let o = model::process_line(m, line).0.out;
    assert(o.take(m2.out.len() as int) == m2.out);
    assert(o.take(m.out.len() as int) =~= m2.out.take(m.out.len() as int));
    assert(o[m.out.len() as int] == o.take(m2.out.len() as int)[m.out.len() as int]);
    assert(o[m.out.len() + 1int] == o.take(m2.out.len() as int)[m.out.len() + 1int]);
}

/// With no line of kind `e` from `k` on, no block is closed from there.
proof fn lemma_never_closed(toks: Seq<TokenType>, k: int, depth: int, s: TokenType, e: TokenType)
    requires
        0 <= k,
        forall|m: int| k <= m < toks.len() ==> toks[m] != e,
    ensures
        !on_type_formatting::closed_from(toks, k, depth, s, e),
    decreases toks.len() - k,
{
    if k < toks.len() {
        if toks[k] == s {
            lemma_never_closed(toks, k + 1, depth + 1, s, e);
        } else {
            lemma_never_closed(toks, k + 1, depth, s, e);
        }
    }
}

/// The blocks that a new line closes when nothing later closes them, with
/// their closing line: FUNCTION, IF and WHILE.
pub open spec fn closable_block(open: TokenType, close: TokenType, closer: Seq<char>) -> bool {
    ||| (open is Function && close is EndFunction && closer == "END_FUNCTION"@)
    ||| (open is If && close is EndIf && closer == "END_IF"@)
    ||| (open is While && close is EndWhile && closer == "END_WHILE"@)
}

/// A new line typed after a line that opens a FUNCTION, IF or WHILE block
/// that no later line closes gets a text that ends with the block's closing
/// line (`END_FUNCTION`, `END_IF`, `END_WHILE`): the block is closed.
pub proof fn law_new_line_closes_open_block(
    content: Seq<char>,
    pos: Position,
    o: on_type_formatting::FormattingOptions,
    close: TokenType,
    closer: Seq<char>,
)
    requires
        pos.line >= 1,
        pos.line - 1 < text::lines(content).len(),
        closable_block(
            lexer::tokenize_spec(text::trim(text::lines(content)[pos.line - 1])),
            close,
            closer,
        ),
        forall|m: int|
            pos.line <= m < text::lines(content).len() ==> lexer::tokenize_spec(
                text::trim(#[trigger] text::lines(content)[m]),
            ) != close,
    ensures
        on_type_formatting::on_type_text(content, pos, seq!['\n'], o) is Some,
        text::ends_with(on_type_formatting::on_type_text(content, pos, seq!['\n'], o).unwrap(), closer),
{
    let ls = text::lines(content);
    let k = pos.line - 1;
    let toks = on_type_formatting::trimmed_tokens(ls);
    crate::laws::law_tokenize_ignores_surrounding_whitespace(Seq::empty(), ls[k as int], Seq::empty());
    assert(Seq::<char>::empty() + ls[k as int] + Seq::<char>::empty() =~= ls[k as int]);
    assert(toks[k as int] == lexer::tokenize_spec(text::trim(ls[k as int])));
    assert forall|m: int| k + 1 <= m < toks.len() implies toks[m] != close by {
        crate::laws::law_tokenize_ignores_surrounding_whitespace(Seq::empty(), ls[m], Seq::empty());
        assert(Seq::<char>::empty() + ls[m] + Seq::<char>::empty() =~= ls[m]);
    }
    let open = toks[k as int];
    if open is Function {
        lemma_never_closed(toks, k + 1, 1, TokenType::Function, close);
    } else if open is If {
        lemma_never_closed(toks, k + 1, 1, TokenType::If, close);
    } else {
        lemma_never_closed(toks, k + 1, 1, TokenType::While, close);
    }
    let t = on_type_formatting::on_type_text(content, pos, seq!['\n'], o).unwrap();
    assert(t.skip(t.len() - closer.len()) =~= closer);
}

/// In particular after a FUNCTION line: the inserted text ends with
/// `END_FUNCTION`.
pub proof fn law_new_line_after_function_closes_it(
    content: Seq<char>,
    pos: Position,
    o: on_type_formatting::FormattingOptions,
)
    requires
        pos.line >= 1,
        pos.line - 1 < text::lines(content).len(),
        lexer::tokenize_spec(text::trim(text::lines(content)[pos.line - 1])) is Function,
        forall|m: int|
            pos.line <= m < text::lines(content).len() ==> !(#[trigger] lexer::tokenize_spec(
                text::trim(text::lines(content)[m]),
            ) is EndFunction),
    ensures
        on_type_formatting::on_type_text(content, pos, seq!['\n'], o) is Some,
        text::ends_with(
            on_type_formatting::on_type_text(content, pos, seq!['\n'], o).unwrap(),
            "END_FUNCTION"@,
        ),
{
    assert forall|m: int| pos.line <= m < text::lines(content).len() implies lexer::tokenize_spec(
        text::trim(#[trigger] text::lines(content)[m]),
    ) != TokenType::EndFunction by {
        assert(!(lexer::tokenize_spec(text::trim(text::lines(content)[m])) is EndFunction));
    }
    law_new_line_closes_open_block(content, pos, o, TokenType::EndFunction, "END_FUNCTION"@);
}

} // verus!
