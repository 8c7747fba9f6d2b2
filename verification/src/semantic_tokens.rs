//! Semantic tokens: the classes an editor colours a script by, encoded as
//! the language server protocol sends them (each token relative to the one
//! before it).
use vstd::prelude::*;

use crate::numbers;
use crate::lexer::{tokenize_spec, tokenize_trimmed_chars, TokenType};
use crate::text::{
    self, chars_of, eq_str, is_ws, is_ws_char, split_lines, trim_chars, utf8_len, utf8_len_sat,
    view_all,
};

verus! {

/// The class of a token, in the order of the legend sent to the editor.
#[derive(Debug, Clone, Copy, PartialEq, Eq, Structural)]
pub enum SemanticTokenType {
    Keyword,
    Function,
    Variable,
    String,
    Number,
    Comment,
    Macro,
    Operator,
    Property,
    Boolean,
    Modifier,
    Unknown,
}

/// A modifier of a token class, in the order of the legend.
#[derive(Debug, Clone, Copy, PartialEq, Eq, Structural)]
pub enum SemanticTokenModifier {
    Declaration,
    Definition,
    Readonly,
    Static,
    Modification,
}

/// One token: its line and start relative to the token before it (the start
/// relative only on the same line), its length, its class as an index into
/// the legend and its modifiers as a bit set.
#[derive(Debug, Clone, Copy, PartialEq, Eq, Structural)]
pub struct SemanticToken {
    pub delta_line: u32,
    pub delta_start: u32,
    pub length: u32,
    pub token_type: u32,
    pub token_modifiers_bitset: u32,
}

impl View for SemanticToken {
    type V = (int, int, int, int, int);

    open spec fn view(&self) -> Self::V {
        (
            self.delta_line as int,
            self.delta_start as int,
            self.length as int,
            self.token_type as int,
            self.token_modifiers_bitset as int,
        )
    }
}

/// The class and modifiers a line's command is shown with.
pub open spec fn semantic_of(t: TokenType) -> (SemanticTokenType, Seq<SemanticTokenModifier>) {
    match t {
        TokenType::If | TokenType::ElseIf | TokenType::Else | TokenType::EndIf | TokenType::While
        | TokenType::EndWhile => (SemanticTokenType::Keyword, seq![]),
        TokenType::Function | TokenType::EndFunction | TokenType::Return
        | TokenType::FunctionCall => (SemanticTokenType::Function, seq![]),
        TokenType::ButtonDef | TokenType::EndButtonDef | TokenType::Extension
        | TokenType::EndExtension | TokenType::Stage | TokenType::EndStage => (
            SemanticTokenType::Keyword,
            seq![],
        ),
        TokenType::Define | TokenType::IfDefined | TokenType::IfNotDefined
        | TokenType::ElseDefined | TokenType::EndIfDefined | TokenType::PreprocessorDisabled => (
            SemanticTokenType::Macro,
            seq![],
        ),
        TokenType::Rem | TokenType::RemBlock | TokenType::EndRemBlock | TokenType::Comment => (
            SemanticTokenType::Comment,
            seq![],
        ),
        TokenType::String | TokenType::StringLn | TokenType::StringBlock
        | TokenType::StringLnBlock | TokenType::EndString => (
            SemanticTokenType::Keyword,
            seq![SemanticTokenModifier::Declaration],
        ),
        TokenType::Delay | TokenType::DelayVar | TokenType::DefaultDelay
        | TokenType::StringDelay => (SemanticTokenType::Keyword, seq![]),
        TokenType::Assignment | TokenType::Declaration => (
            SemanticTokenType::Variable,
            seq![SemanticTokenModifier::Declaration],
        ),
        TokenType::Attackmode | TokenType::InjectVar | TokenType::Inject | TokenType::InjectMod
        | TokenType::Keycode | TokenType::ExfilVar => (
            SemanticTokenType::Keyword,
            seq![SemanticTokenModifier::Modification],
        ),
        TokenType::Hold | TokenType::Release | TokenType::Repeat | TokenType::Enter
        | TokenType::ModKeyDown | TokenType::ModKeyUp | TokenType::KeyDown | TokenType::KeyUp
        | TokenType::ModDown | TokenType::ModUp => (SemanticTokenType::Keyword, seq![]),
        TokenType::Modifier => (SemanticTokenType::Modifier, seq![]),
        TokenType::RandomLowercaseLetter | TokenType::RandomUppercaseLetter
        | TokenType::RandomNumber | TokenType::RandomLetter | TokenType::RandomSpecial
        | TokenType::RandomChar => (
            SemanticTokenType::Function,
            seq![SemanticTokenModifier::Static],
        ),
        TokenType::Breakpoint | TokenType::InjectBreakpointLineNumber => (
            SemanticTokenType::Keyword,
            seq![SemanticTokenModifier::Modification],
        ),
        TokenType::Unknown => (SemanticTokenType::Unknown, seq![]),
    }
}

/// The classes, in the order the editor is told.
pub open spec fn types_legend() -> Seq<SemanticTokenType> {
    seq![
        SemanticTokenType::Keyword,
        SemanticTokenType::Function,
        SemanticTokenType::Variable,
        SemanticTokenType::String,
        SemanticTokenType::Number,
        SemanticTokenType::Comment,
        SemanticTokenType::Macro,
        SemanticTokenType::Operator,
        SemanticTokenType::Property,
        SemanticTokenType::Boolean,
        SemanticTokenType::Modifier,
        SemanticTokenType::Unknown,
    ]
}

/// The modifiers, in the order the editor is told.
pub open spec fn modifiers_legend() -> Seq<SemanticTokenModifier> {
    seq![
        SemanticTokenModifier::Declaration,
        SemanticTokenModifier::Definition,
        SemanticTokenModifier::Readonly,
        SemanticTokenModifier::Static,
        SemanticTokenModifier::Modification,
    ]
}

/// The place of a class in the legend.
pub open spec fn type_index(t: SemanticTokenType) -> u32 {
    match t {
        SemanticTokenType::Keyword => 0,
        SemanticTokenType::Function => 1,
        SemanticTokenType::Variable => 2,
        SemanticTokenType::String => 3,
        SemanticTokenType::Number => 4,
        SemanticTokenType::Comment => 5,
        SemanticTokenType::Macro => 6,
        SemanticTokenType::Operator => 7,
        SemanticTokenType::Property => 8,
        SemanticTokenType::Boolean => 9,
        SemanticTokenType::Modifier => 10,
        SemanticTokenType::Unknown => 11,
    }
}

/// The place of a modifier in the legend.
pub open spec fn modifier_index(m: SemanticTokenModifier) -> u32 {
    match m {
        SemanticTokenModifier::Declaration => 0,
        SemanticTokenModifier::Definition => 1,
        SemanticTokenModifier::Readonly => 2,
        SemanticTokenModifier::Static => 3,
        SemanticTokenModifier::Modification => 4,
    }
}

/// The bit set of a list of modifiers: bit `i` for the modifier at place `i`
/// of the legend.
pub open spec fn modifier_bits(ms: Seq<SemanticTokenModifier>) -> u32
    decreases ms.len(),
{
    if ms.len() == 0 {
        0
    } else {
        modifier_bits(ms.drop_last()) | (1u32 << modifier_index(ms.last()))
    }
}

/// The class and modifiers of a line's command.
pub fn token_type_to_semantic(token: &TokenType) -> (r: (SemanticTokenType, Vec<SemanticTokenModifier>))
    ensures
        (r.0, r.1@) == semantic_of(*token),
{
    let r = match token {
        TokenType::If | TokenType::ElseIf | TokenType::Else | TokenType::EndIf | TokenType::While
        | TokenType::EndWhile => (SemanticTokenType::Keyword, vec![]),
        TokenType::Function | TokenType::EndFunction | TokenType::Return
        | TokenType::FunctionCall => (SemanticTokenType::Function, vec![]),
        TokenType::ButtonDef | TokenType::EndButtonDef | TokenType::Extension
        | TokenType::EndExtension | TokenType::Stage | TokenType::EndStage => (
            SemanticTokenType::Keyword,
            vec![],
        ),
        TokenType::Define | TokenType::IfDefined | TokenType::IfNotDefined
        | TokenType::ElseDefined | TokenType::EndIfDefined | TokenType::PreprocessorDisabled => (
            SemanticTokenType::Macro,
            vec![],
        ),
        TokenType::Rem | TokenType::RemBlock | TokenType::EndRemBlock | TokenType::Comment => (
            SemanticTokenType::Comment,
            vec![],
        ),
        TokenType::String | TokenType::StringLn | TokenType::StringBlock
        | TokenType::StringLnBlock | TokenType::EndString => (
            SemanticTokenType::Keyword,
            vec![SemanticTokenModifier::Declaration],
        ),
        TokenType::Delay | TokenType::DelayVar | TokenType::DefaultDelay
        | TokenType::StringDelay => (SemanticTokenType::Keyword, vec![]),
        TokenType::Assignment | TokenType::Declaration => (
            SemanticTokenType::Variable,
            vec![SemanticTokenModifier::Declaration],
        ),
        TokenType::Attackmode | TokenType::InjectVar | TokenType::Inject | TokenType::InjectMod
        | TokenType::Keycode | TokenType::ExfilVar => (
            SemanticTokenType::Keyword,
            vec![SemanticTokenModifier::Modification],
        ),
        TokenType::Hold | TokenType::Release | TokenType::Repeat | TokenType::Enter
        | TokenType::ModKeyDown | TokenType::ModKeyUp | TokenType::KeyDown | TokenType::KeyUp
        | TokenType::ModDown | TokenType::ModUp => (SemanticTokenType::Keyword, vec![]),
        TokenType::Modifier => (SemanticTokenType::Modifier, vec![]),
        TokenType::RandomLowercaseLetter | TokenType::RandomUppercaseLetter
        | TokenType::RandomNumber | TokenType::RandomLetter | TokenType::RandomSpecial
        | TokenType::RandomChar => (
            SemanticTokenType::Function,
            vec![SemanticTokenModifier::Static],
        ),
        TokenType::Breakpoint | TokenType::InjectBreakpointLineNumber => (
            SemanticTokenType::Keyword,
            vec![SemanticTokenModifier::Modification],
        ),
        TokenType::Unknown => (SemanticTokenType::Unknown, vec![]),
    };
    assert((r.0, r.1@) =~= semantic_of(*token));
    r
}

/// The legend of classes.
pub fn semantic_token_types_legend() -> (r: Vec<SemanticTokenType>)
    ensures
        r@ == types_legend(),
{
    let r = vec![
        SemanticTokenType::Keyword,
        SemanticTokenType::Function,
        SemanticTokenType::Variable,
        SemanticTokenType::String,
        SemanticTokenType::Number,
        SemanticTokenType::Comment,
        SemanticTokenType::Macro,
        SemanticTokenType::Operator,
        SemanticTokenType::Property,
        SemanticTokenType::Boolean,
        SemanticTokenType::Modifier,
        SemanticTokenType::Unknown,
    ];
    assert(r@ =~= types_legend());
    r
}

/// The legend of modifiers.
pub fn semantic_token_modifiers_legend() -> (r: Vec<SemanticTokenModifier>)
    ensures
        r@ == modifiers_legend(),
{
    let r = vec![
        SemanticTokenModifier::Declaration,
        SemanticTokenModifier::Definition,
        SemanticTokenModifier::Readonly,
        SemanticTokenModifier::Static,
        SemanticTokenModifier::Modification,
    ];
    assert(r@ =~= modifiers_legend());
    r
}

/// The place of a class in the legend.
fn semantic_type_to_index(t: &SemanticTokenType) -> (r: u32)
    ensures
        r == type_index(*t),
        types_legend()[r as int] == *t,
{
    match t {
        SemanticTokenType::Keyword => 0,
        SemanticTokenType::Function => 1,
        SemanticTokenType::Variable => 2,
        SemanticTokenType::String => 3,
        SemanticTokenType::Number => 4,
        SemanticTokenType::Comment => 5,
        SemanticTokenType::Macro => 6,
        SemanticTokenType::Operator => 7,
        SemanticTokenType::Property => 8,
        SemanticTokenType::Boolean => 9,
        SemanticTokenType::Modifier => 10,
        SemanticTokenType::Unknown => 11,
    }
}

/// The bit set of a list of modifiers.
fn modifiers_to_bits(modifiers: &[SemanticTokenModifier]) -> (r: u32)
    ensures
        r == modifier_bits(modifiers@),
{
    let mut acc: u32 = 0;
    let mut k: usize = 0;
    assert(modifiers@.take(0) =~= Seq::<SemanticTokenModifier>::empty());
    while k < modifiers.len()
        invariant
            k <= modifiers@.len(),
            acc == modifier_bits(modifiers@.take(k as int)),
        decreases modifiers@.len() - k,
    {
        let idx: u32 = match modifiers[k] {
            SemanticTokenModifier::Declaration => 0,
            SemanticTokenModifier::Definition => 1,
            SemanticTokenModifier::Readonly => 2,
            SemanticTokenModifier::Static => 3,
            SemanticTokenModifier::Modification => 4,
        };
        assert(modifiers@.take(k + 1).drop_last() =~= modifiers@.take(k as int));
        acc = acc | (1u32 << idx);
        k = k + 1;
    }
    assert(modifiers@.take(k as int) =~= modifiers@);
    acc
}

/// `char::is_alphanumeric`: the character is Unicode `Alphabetic` or
/// `Numeric`.
pub uninterp spec fn char_alphanumeric(c: char) -> bool;

/// `char::is_alphabetic`: the character is Unicode `Alphabetic`.
pub uninterp spec fn char_alphabetic(c: char) -> bool;

/// An ASCII letter.
pub open spec fn ascii_letter(c: char) -> bool {
    ('a' <= c && c <= 'z') || ('A' <= c && c <= 'Z')
}

/// Whether `c` is alphanumeric: for an ASCII character, a letter or digit;
/// beyond ASCII, as `char::is_alphanumeric` says.
pub open spec fn alphanumeric(c: char) -> bool {
    if (c as u32) < 0x80 {
        ascii_letter(c) || numbers::is_digit(c)
    } else {
        char_alphanumeric(c)
    }
}

/// Whether `c` is alphabetic: for an ASCII character, a letter; beyond
/// ASCII, as `char::is_alphabetic` says.
pub open spec fn alphabetic(c: char) -> bool {
    if (c as u32) < 0x80 {
        ascii_letter(c)
    } else {
        char_alphabetic(c)
    }
}

/// Calls `char::is_alphanumeric`. The contract names its result and claims
/// one fact of it: among ASCII characters exactly the letters and digits
/// are alphanumeric (the only ASCII characters with the Unicode `Alphabetic`
/// property or a numeric general category). Which other characters are
/// alphanumeric it leaves unsaid.
#[verifier::external_body]
pub(crate) fn is_alphanumeric(c: char) -> (r: bool)
    ensures
        r == char_alphanumeric(c),
        (c as u32) < 0x80 ==> (r <==> (ascii_letter(c) || numbers::is_digit(c))),
{
    c.is_alphanumeric()
}

/// Calls `char::is_alphabetic`. The contract names its result and claims
/// one fact of it: among ASCII characters exactly the letters are
/// alphabetic (the only ASCII characters with the Unicode `Alphabetic`
/// property). Which other characters are alphabetic it leaves unsaid.
#[verifier::external_body]
fn is_alphabetic(c: char) -> (r: bool)
    ensures
        r == char_alphabetic(c),
        (c as u32) < 0x80 ==> (r <==> ascii_letter(c)),
{
    c.is_alphabetic()
}

/// A token as the protocol sends it: line delta, start delta, length, class
/// index and modifier bits.
pub type Tok = (int, int, int, int, int);

/// The views of a list of tokens.
pub open spec fn toks_view(v: Seq<SemanticToken>) -> Seq<Tok> {
    v.map_values(|t: SemanticToken| t@)
}

/// The length of the run from `i` of characters that can be in a name marked
/// with `mark` (letters, digits, `_` and the mark).
pub open spec fn name_run(s: Seq<char>, i: int, mark: char) -> nat
    decreases s.len() - i,
{
    if 0 <= i < s.len() && (alphanumeric(s[i]) || s[i] == '_' || s[i] == mark) {
        1 + name_run(s, i + 1, mark)
    } else {
        0
    }
}

/// A character that can be in a number (decimal digits, `x` and hex digits).
pub open spec fn is_number_char(c: char) -> bool {
    ||| text::is_ascii_digit(c)
    ||| c == 'x'
    ||| ('a' <= c && c <= 'f')
    ||| ('A' <= c && c <= 'F')
}

/// The length of the run from `i` of characters that can be in a number.
pub open spec fn number_run(s: Seq<char>, i: int) -> nat
    decreases s.len() - i,
{
    if 0 <= i < s.len() && is_number_char(s[i]) {
        1 + number_run(s, i + 1)
    } else {
        0
    }
}

/// The length of the run from `i` of letters.
pub open spec fn alpha_run(s: Seq<char>, i: int) -> nat
    decreases s.len() - i,
{
    if 0 <= i < s.len() && alphabetic(s[i]) {
        1 + alpha_run(s, i + 1)
    } else {
        0
    }
}

/// An operator character.
pub open spec fn is_operator_char(c: char) -> bool {
    ||| c == '='
    ||| c == '+'
    ||| c == '-'
    ||| c == '*'
    ||| c == '/'
    ||| c == '%'
    ||| c == '<'
    ||| c == '>'
    ||| c == '&'
    ||| c == '|'
    ||| c == '!'
    ||| c == '^'
}

/// No letter or digit stands right before position `i`.
pub open spec fn starts_word(s: Seq<char>, i: int) -> bool {
    i == 0 || !alphanumeric(s[i - 1])
}

/// Whether the word of `n` characters from `i` ends the text or is followed
/// by something other than a letter or digit. Past the last character the
/// text is read as a space, and a position past its byte length ends it.
pub open spec fn ends_word(s: Seq<char>, i: int, n: int) -> bool {
    ||| i + n >= utf8_len(s)
    ||| (i + n < s.len() && !alphanumeric(s[i + n]))
    ||| (i + n >= s.len() && !alphanumeric(' '))
}

/// The token that starts at position `i` of the text after a command, if
/// any: its length in bytes and its class index. `#` starts a constant, `$`
/// a variable; an operator character is a token of its own; a digit that
/// starts a word starts a number; `TRUE` and `FALSE` as whole words are
/// booleans.
pub open spec fn rest_token(s: Seq<char>, i: int) -> Option<(int, u32)> {
    let c = s[i];
    if c == '#' {
        Some(
            (
                utf8_len(s.subrange(i, i + name_run(s, i, '#'))) as int,
                type_index(SemanticTokenType::Property),
            ),
        )
    } else if c == '$' {
        Some(
            (
                utf8_len(s.subrange(i, i + name_run(s, i, '$'))) as int,
                type_index(SemanticTokenType::Variable),
            ),
        )
    } else if is_operator_char(c) {
        Some((1, type_index(SemanticTokenType::Operator)))
    } else if text::is_ascii_digit(c) && starts_word(s, i) {
        Some(
            (
                utf8_len(s.subrange(i, i + number_run(s, i))) as int,
                type_index(SemanticTokenType::Number),
            ),
        )
    } else if c == 'T' || c == 'F' {
        let n = alpha_run(s, i) as int;
        let w = s.subrange(i, i + n);
        if (w == "TRUE"@ || w == "FALSE"@) && starts_word(s, i) && ends_word(s, i, n) {
            Some((n, type_index(SemanticTokenType::Boolean)))
        } else {
            None
        }
    } else {
        None
    }
}

/// The tokens found from position `i` of the text after a command, which
/// starts at column `base`, the previous token starting at column `prev`;
/// with the start of the last token.
pub open spec fn scan_rest(s: Seq<char>, i: int, base: int, prev: int) -> (Seq<Tok>, int)
    decreases s.len() - i,
{
    if i < 0 || i >= s.len() {
        (seq![], prev)
    } else {
        match rest_token(s, i) {
            Some((len, kind)) => {
                let pos = base + i;
                let r = scan_rest(s, i + 1, base, pos);
                (seq![(0, pos - prev, len, kind as int, 0)] + r.0, r.1)
            },
            None => scan_rest(s, i + 1, base, prev),
        }
    }
}

/// The number of whitespace characters a line starts with.
pub open spec fn leading_ws(s: Seq<char>) -> nat
    decreases s.len(),
{
    if s.len() > 0 && is_ws(s[0]) {
        1 + leading_ws(s.drop_first())
    } else {
        0
    }
}

/// A token kind that makes the whole line a comment.
pub open spec fn is_comment_token(t: TokenType) -> bool {
    t == TokenType::Rem || t == TokenType::RemBlock || t == TokenType::EndRemBlock || t
        == TokenType::Comment
}

/// The tokens of line `idx`, given the line and start of the last token and
/// whether a comment block is open; with the state after the line. A blank
/// line has none. Otherwise the command (or, in a comment, the whole line)
/// is one token; in the rest of the line constants, variables, operators,
/// numbers and booleans are tokens.
pub open spec fn line_semantic(line: Seq<char>, idx: int, st: (int, int, bool)) -> (
    Seq<Tok>,
    (int, int, bool),
) {
    let t_text = text::trim(line);
    if t_text.len() == 0 {
        (seq![], st)
    } else {
        let t = tokenize_spec(t_text);
        let in_rem = if t == TokenType::RemBlock {
            true
        } else if t == TokenType::EndRemBlock {
            false
        } else {
            st.2
        };
        let sem = if in_rem && t != TokenType::RemBlock && t != TokenType::EndRemBlock {
            (SemanticTokenType::Comment, Seq::<SemanticTokenModifier>::empty())
        } else {
            semantic_of(t)
        };
        let start = leading_ws(line) as int;
        let whole = in_rem || is_comment_token(t);
        let kw = if whole {
            t_text.len() as int
        } else {
            text::index_of_ws(t_text) as int
        };
        let kw_len = utf8_len(t_text.take(kw)) as int;
        let dl = idx - st.0;
        let ds = if dl == 0 {
            start - st.1
        } else {
            start
        };
        let head = (dl, ds, kw_len, type_index(sem.0) as int, modifier_bits(sem.1) as int);
        if whole {
            (seq![head], (idx, start, in_rem))
        } else {
            let r = scan_rest(t_text.skip(kw), 0, start + kw_len, start);
            (seq![head] + r.0, (idx, r.1, in_rem))
        }
    }
}

/// The tokens of the lines from `k` on.
pub open spec fn doc_semantic(ls: Seq<Seq<char>>, k: int, st: (int, int, bool)) -> Seq<Tok>
    decreases ls.len() - k,
{
    if k < 0 || k >= ls.len() {
        seq![]
    } else {
        let r = line_semantic(ls[k], k, st);
        r.0 + doc_semantic(ls, k + 1, r.1)
    }
}

/// The semantic tokens of a script.
pub open spec fn semantic_tokens(content: Seq<char>) -> Seq<Tok> {
    doc_semantic(text::lines(content), 0, (0, 0, false))
}

/// The largest script (in characters) whose positions all fit the protocol's
/// `u32` integers: a position counts up to four UTF-8 bytes a character, and
/// some reported values add two such counts, so eight times this bound is
/// still at most `u32::MAX`.
pub const MAX_DOCUMENT_CHARS: usize = 0x1FFF_FFFF;

fn name_run_exec(s: &[char], i: usize, mark: char) -> (n: usize)
    requires
        i <= s@.len(),
    ensures
        n == name_run(s@, i as int, mark),
        i + n <= s@.len(),
{
    let mut j = i;
    while j < s.len() && (is_alphanumeric(s[j]) || s[j] == '_' || s[j] == mark)
        invariant
            i <= j <= s@.len(),
            name_run(s@, i as int, mark) == (j - i) + name_run(s@, j as int, mark),
        decreases s@.len() - j,
    {
        j = j + 1;
    }
    j - i
}

fn number_run_exec(s: &[char], i: usize) -> (n: usize)
    requires
        i <= s@.len(),
    ensures
        n == number_run(s@, i as int),
        i + n <= s@.len(),
{
    let mut j = i;
    while j < s.len() && (('0' <= s[j] && s[j] <= '9') || s[j] == 'x' || ('a' <= s[j] && s[j]
        <= 'f') || ('A' <= s[j] && s[j] <= 'F'))
        invariant
            i <= j <= s@.len(),
            number_run(s@, i as int) == (j - i) + number_run(s@, j as int),
        decreases s@.len() - j,
    {
        j = j + 1;
    }
    j - i
}

fn alpha_run_exec(s: &[char], i: usize) -> (n: usize)
    requires
        i <= s@.len(),
    ensures
        n == alpha_run(s@, i as int),
        i + n <= s@.len(),
{
    let mut j = i;
    while j < s.len() && is_alphabetic(s[j])
        invariant
            i <= j <= s@.len(),
            alpha_run(s@, i as int) == (j - i) + alpha_run(s@, j as int),
        decreases s@.len() - j,
    {
        j = j + 1;
    }
    j - i
}

/// The byte length of `s[i..i + n]`.
fn run_bytes(s: &[char], i: usize, n: usize) -> (r: usize)
    requires
        i + n <= s@.len(),
        s@.len() <= MAX_DOCUMENT_CHARS,
    ensures
        r == utf8_len(s@.subrange(i as int, i + n)),
        r <= 4 * n,
{
    let w = &s[i..i + n];
    proof {
        text::lemma_utf8_len_bound(w@);
    }
    utf8_len_sat(w)
}

fn rest_token_exec(s: &[char], i: usize) -> (r: Option<(usize, u32)>)
    requires
        i < s@.len(),
        s@.len() <= MAX_DOCUMENT_CHARS,
    ensures
        match r {
            Some((len, k)) => rest_token(s@, i as int) == Some((len as int, k)) && len <= 4
                * s@.len(),
            None => rest_token(s@, i as int) is None,
        },
{
    let c = s[i];
    if c == '#' {
        let n = name_run_exec(s, i, '#');
        Some((run_bytes(s, i, n), 8))
    } else if c == '$' {
        let n = name_run_exec(s, i, '$');
        Some((run_bytes(s, i, n), 2))
    } else if c == '=' || c == '+' || c == '-' || c == '*' || c == '/' || c == '%' || c == '<' || c
        == '>' || c == '&' || c == '|' || c == '!' || c == '^' {
        Some((1, 7))
    } else if '0' <= c && c <= '9' && (i == 0 || !is_alphanumeric(s[i - 1])) {
        let n = number_run_exec(s, i);
        Some((run_bytes(s, i, n), 4))
    } else if c == 'T' || c == 'F' {
        let n = alpha_run_exec(s, i);
        let w = &s[i..i + n];
        if eq_str(w, "TRUE") || eq_str(w, "FALSE") {
            let starts = i == 0 || !is_alphanumeric(s[i - 1]);
            let next = i + n;
            proof {
                text::lemma_utf8_len_bound(s@);
            }
            let total = utf8_len_sat(s);
            let ends = if next >= total {
                true
            } else if next < s.len() {
                !is_alphanumeric(s[next])
            } else {
                !is_alphanumeric(' ')
            };
            if starts && ends {
                Some((n, 9))
            } else {
                None
            }
        } else {
            None
        }
    } else {
        None
    }
}

proof fn lemma_toks_view_push(v: Seq<SemanticToken>, t: SemanticToken)
    ensures
        toks_view(v.push(t)) == toks_view(v).push(t@),
{
    assert(toks_view(v.push(t)) =~= toks_view(v).push(t@));
}

/// Appends the tokens of the text after a command (which starts at column
/// `base`, the last token at `prev0`) and returns the start of the last one.
fn scan_rest_exec(s: &[char], base: usize, prev0: usize, tokens: &mut Vec<SemanticToken>) -> (p: usize)
    requires
        s@.len() <= MAX_DOCUMENT_CHARS,
        base <= 5 * MAX_DOCUMENT_CHARS,
        prev0 <= base,
    ensures
        toks_view(final(tokens)@) == toks_view(old(tokens)@) + scan_rest(
            s@,
            0,
            base as int,
            prev0 as int,
        ).0,
        p == scan_rest(s@, 0, base as int, prev0 as int).1,
{
    let mut prev = prev0;
    let mut i: usize = 0;
    while i < s.len()
        invariant
            i <= s@.len(),
            prev <= base + i,
            s@.len() <= MAX_DOCUMENT_CHARS,
            base <= 5 * MAX_DOCUMENT_CHARS,
            toks_view(tokens@) + scan_rest(s@, i as int, base as int, prev as int).0 == toks_view(
                old(tokens)@,
            ) + scan_rest(s@, 0, base as int, prev0 as int).0,
            scan_rest(s@, i as int, base as int, prev as int).1 == scan_rest(
                s@,
                0,
                base as int,
                prev0 as int,
            ).1,
        decreases s@.len() - i,
    {
        match rest_token_exec(s, i) {
            Some((len, kind)) => {
                let pos = base + i;
                let t = SemanticToken {
                    delta_line: 0,
                    delta_start: (pos - prev) as u32,
                    length: len as u32,
                    token_type: kind,
                    token_modifiers_bitset: 0,
                };
                let ghost before = toks_view(tokens@);
                proof {
                    lemma_toks_view_push(tokens@, t);
                }
                tokens.push(t);
                assert(before.push(t@) + scan_rest(s@, i + 1, base as int, pos as int).0 =~= before
                    + scan_rest(s@, i as int, base as int, prev as int).0);
                prev = pos;
            },
            None => {},
        }
        i = i + 1;
    }
    prev
}

/// The number of whitespace characters `s` starts with.
fn leading_ws_exec(s: &[char]) -> (n: usize)
    ensures
        n == leading_ws(s@),
        n <= s@.len(),
{
    let mut j: usize = 0;
    assert(s@.skip(0) =~= s@);
    while j < s.len() && is_ws_char(s[j])
        invariant
            j <= s@.len(),
            leading_ws(s@) == j + leading_ws(s@.skip(j as int)),
        decreases s@.len() - j,
    {
        assert(s@.skip(j as int).drop_first() =~= s@.skip(j + 1));
        j = j + 1;
    }
    j
}

/// The index of the first whitespace character of `s` (its length if none).
fn first_ws(s: &[char]) -> (n: usize)
    ensures
        n == text::index_of_ws(s@),
        n <= s@.len(),
{
    let mut j: usize = 0;
    while j < s.len() && !is_ws_char(s[j])
        invariant
            j <= s@.len(),
            forall|m: int| 0 <= m < j ==> !is_ws(#[trigger] s@[m]),
        decreases s@.len() - j,
    {
        j = j + 1;
    }
    proof {
        text::lemma_index_of_ws(s@, j as int);
    }
    j
}

/// Appends the tokens of line `idx` and returns the state after it.
fn line_semantic_exec(
    line: &[char],
    idx: usize,
    st_line: usize,
    st_start: usize,
    st_rem: bool,
    tokens: &mut Vec<SemanticToken>,
) -> (r: (usize, usize, bool))
    requires
        line@.len() <= MAX_DOCUMENT_CHARS,
        idx <= MAX_DOCUMENT_CHARS,
        st_line <= idx,
        st_line == idx ==> (idx == 0 && st_start == 0),
    ensures
        ({
            let s = line_semantic(line@, idx as int, (st_line as int, st_start as int, st_rem));
            &&& toks_view(final(tokens)@) == toks_view(old(tokens)@) + s.0
            &&& (r.0 as int, r.1 as int, r.2) == s.1
        }),
        r.0 <= idx,
{
    let t_text = trim_chars(line);
    proof {
        text::lemma_trim_start_stops(line@);
        text::lemma_trim_end_stops(text::trim_start(line@));
    }
    if t_text.len() == 0 {
        assert(toks_view(tokens@) =~= toks_view(tokens@) + Seq::<Tok>::empty());
        return (st_line, st_start, st_rem);
    }
    let t = tokenize_trimmed_chars(t_text);
    let in_rem = if t == TokenType::RemBlock {
        true
    } else if t == TokenType::EndRemBlock {
        false
    } else {
        st_rem
    };
    let sem: (SemanticTokenType, Vec<SemanticTokenModifier>) = if in_rem && t
        != TokenType::RemBlock && t != TokenType::EndRemBlock {
        let v: Vec<SemanticTokenModifier> = Vec::new();
        (SemanticTokenType::Comment, v)
    } else {
        token_type_to_semantic(&t)
    };
    assert(sem.1@ =~= line_semantic_sem(t, in_rem).1);
    let start = leading_ws_exec(line);
    let whole = in_rem || t == TokenType::Rem || t == TokenType::RemBlock || t
        == TokenType::EndRemBlock || t == TokenType::Comment;
    let kw = if whole {
        t_text.len()
    } else {
        first_ws(t_text)
    };
    let kw_len = run_bytes(t_text, 0, kw);
    assert(t_text@.subrange(0, kw as int) =~= t_text@.take(kw as int));
    let dl = idx - st_line;
    let ds = if dl == 0 {
        start - st_start
    } else {
        start
    };
    let head = SemanticToken {
        delta_line: dl as u32,
        delta_start: ds as u32,
        length: kw_len as u32,
        token_type: semantic_type_to_index(&sem.0),
        token_modifiers_bitset: modifiers_to_bits(sem.1.as_slice()),
    };
    proof {
        lemma_toks_view_push(tokens@, head);
    }
    tokens.push(head);
    if whole {
        assert(seq![head@] =~= line_semantic(
            line@,
            idx as int,
            (st_line as int, st_start as int, st_rem),
        ).0);
        return (idx, start, in_rem);
    }
    let ghost mid = toks_view(tokens@);
    let rest = &t_text[kw..t_text.len()];
    let p = scan_rest_exec(rest, start + kw_len, start, tokens);
    assert(rest@ =~= t_text@.skip(kw as int));
    assert(toks_view(old(tokens)@) + line_semantic(
        line@,
        idx as int,
        (st_line as int, st_start as int, st_rem),
    ).0 =~= mid + scan_rest(rest@, 0, (start + kw_len) as int, start as int).0);
    (idx, p, in_rem)
}

/// The class and modifiers of a line with token `t`, inside a comment block
/// or not.
pub open spec fn line_semantic_sem(t: TokenType, in_rem: bool) -> (
    SemanticTokenType,
    Seq<SemanticTokenModifier>,
) {
    if in_rem && t != TokenType::RemBlock && t != TokenType::EndRemBlock {
        (SemanticTokenType::Comment, Seq::<SemanticTokenModifier>::empty())
    } else {
        semantic_of(t)
    }
}

/// The semantic tokens of a script: for each line that is not blank, its
/// command (or, inside a comment block or on a comment line, the whole line),
/// then the constants, variables, operators, numbers and booleans in the
/// rest of the line, each encoded relative to the token before it.
pub fn generate_semantic_tokens(content: &str) -> (r: Vec<SemanticToken>)
    requires
        content@.len() <= MAX_DOCUMENT_CHARS,
    ensures
        toks_view(r@) == semantic_tokens(content@),
{
    let c = chars_of(content);
    let lines = split_lines(c.as_slice());
    proof {
        text::lemma_lines_bound(c@);
    }
    let mut tokens: Vec<SemanticToken> = Vec::new();
    let mut pl: usize = 0;
    let mut ps: usize = 0;
    let mut rem = false;
    let mut k: usize = 0;
    while k < lines.len()
        invariant
            k <= lines@.len(),
            view_all(lines@) == text::lines(c@),
            c@ == content@,
            c@.len() <= MAX_DOCUMENT_CHARS,
            lines@.len() <= c@.len(),
            forall|m: int|
                0 <= m < text::lines(c@).len() ==> (#[trigger] text::lines(c@)[m]).len()
                    <= c@.len(),
            pl <= k,
            pl == k ==> (k == 0 && ps == 0),
            toks_view(tokens@) + doc_semantic(
                view_all(lines@),
                k as int,
                (pl as int, ps as int, rem),
            ) == doc_semantic(view_all(lines@), 0, (0, 0, false)),
        decreases lines@.len() - k,
    {
        assert(lines[k as int]@ == text::lines(c@)[k as int]);
        let ghost before = toks_view(tokens@);
        let r = line_semantic_exec(lines[k].as_slice(), k, pl, ps, rem, &mut tokens);
        assert(before + doc_semantic(view_all(lines@), k as int, (pl as int, ps as int, rem))
            =~= toks_view(tokens@) + doc_semantic(
            view_all(lines@),
            k + 1,
            (r.0 as int, r.1 as int, r.2),
        ));
        pl = r.0;
        ps = r.1;
        rem = r.2;
        k = k + 1;
    }
    tokens
}

} // verus!
