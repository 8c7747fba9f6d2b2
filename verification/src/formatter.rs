//! The formatter: re-indents a DuckyScript program by its blocks.
use vstd::prelude::*;

use crate::text::{self, chars_of, split_lines, starts_with_str, string_of, trim_chars};

verus! {

/// How the formatter lays out a program.
#[derive(Debug, Clone)]
pub struct FormatterConfig {
    pub enabled: bool,
    pub indent_size: usize,
    pub use_tabs: bool,
    pub max_line_length: usize,
    pub align_comments: bool,
    pub trim_trailing_whitespace: bool,
    pub insert_final_newline: bool,
    pub space_after_command: bool,
}

impl Default for FormatterConfig {
    fn default() -> (r: Self)
        ensures
            !r.enabled,
            r.indent_size == 4,
            !r.use_tabs,
            r.max_line_length == 120,
            r.align_comments,
            r.trim_trailing_whitespace,
            r.insert_final_newline,
            !r.space_after_command,
    {
        FormatterConfig {
            enabled: false,
            indent_size: 4,
            use_tabs: false,
            max_line_length: 120,
            align_comments: true,
            trim_trailing_whitespace: true,
            insert_final_newline: true,
            space_after_command: false,
        }
    }
}

/// A trimmed line that closes a block (and is written one level out).
pub open spec fn closes_block(t: Seq<char>) -> bool {
    text::starts_with(t, "END_"@) || t == "ELSE"@ || text::starts_with(t, "ELSE "@)
}

/// A trimmed line that opens a block (the lines after it go one level in).
pub open spec fn opens_block(t: Seq<char>) -> bool {
    ||| text::starts_with(t, "IF "@)
    ||| text::starts_with(t, "WHILE "@)
    ||| text::starts_with(t, "FUNCTION "@)
    ||| t == "ELSE"@
    ||| text::starts_with(t, "ELSE "@)
    ||| t == "STRING"@
    ||| t == "STRINGLN"@
    ||| text::starts_with(t, "STRING_"@)
    ||| text::starts_with(t, "STRINGLN_"@)
}

/// `k` copies of `c`.
pub open spec fn repeat_char(c: char, k: nat) -> Seq<char> {
    Seq::new(k, |i: int| c)
}

/// The indentation of a line at `level`.
pub open spec fn indentation(config: FormatterConfig, level: nat) -> Seq<char> {
    if config.use_tabs {
        repeat_char('\t', level)
    } else {
        repeat_char(' ', level * (config.indent_size as nat))
    }
}

/// The formatted lines, from the block depth `level` on: a blank line stays
/// empty; any other line is trimmed and indented by its depth.
pub open spec fn format_lines(config: FormatterConfig, lines: Seq<Seq<char>>, level: nat) -> Seq<char>
    decreases lines.len(),
{
    if lines.len() == 0 {
        Seq::empty()
    } else {
        let t = text::trim(lines[0]);
        if t.len() == 0 {
            seq!['\n'] + format_lines(config, lines.drop_first(), level)
        } else {
            let l = if closes_block(t) && level > 0 {
                (level - 1) as nat
            } else if closes_block(t) {
                0
            } else {
                level
            };
            let next = if opens_block(t) {
                l + 1
            } else {
                l
            };
            indentation(config, l) + t + seq!['\n'] + format_lines(config, lines.drop_first(), next)
        }
    }
}

/// What `format` gives for `source`.
pub open spec fn formatted(config: FormatterConfig, source: Seq<char>) -> Seq<char> {
    if !config.enabled {
        source
    } else {
        let f = format_lines(config, text::lines(source), 0);
        if config.insert_final_newline && !text::ends_with(f, seq!['\n']) {
            f.push('\n')
        } else {
            f
        }
    }
}

/// Appends the indentation of `level`.
fn push_indent(out: &mut Vec<char>, use_tabs: bool, size: usize, level: usize)
    ensures
        final(out)@ == old(out)@ + (if use_tabs {
            repeat_char('\t', level as nat)
        } else {
            repeat_char(' ', level as nat * size as nat)
        }),
{
    let ghost mid = out@;
    if use_tabs {
        let mut k: usize = 0;
        while k < level
            invariant
                k <= level,
                out@ == mid + repeat_char('\t', k as nat),
            decreases level - k,
        {
            out.push('\t');
            assert(out@ =~= mid + repeat_char('\t', (k + 1) as nat));
            k = k + 1;
        }
    } else {
        let mut k: usize = 0;
        assert(out@ =~= mid + repeat_char(' ', 0));
        while k < level
            invariant
                k <= level,
                out@ == mid + repeat_char(' ', k as nat * size as nat),
            decreases level - k,
        {
            let mut j: usize = 0;
            let ghost mid2 = out@;
            assert(out@ =~= mid2 + repeat_char(' ', 0));
            while j < size
                invariant
                    j <= size,
                    out@ == mid2 + repeat_char(' ', j as nat),
                decreases size - j,
            {
                out.push(' ');
                assert(out@ =~= mid2 + repeat_char(' ', (j + 1) as nat));
                j = j + 1;
            }
            assert((k + 1) as nat * size as nat == k as nat * size as nat + size as nat) by (nonlinear_arith);
            assert(mid + repeat_char(' ', k as nat * size as nat) + repeat_char(' ', size as nat) =~= mid
                + repeat_char(' ', (k + 1) as nat * size as nat));
            k = k + 1;
        }
    }
}

/// Appends the characters of `t`, then a newline.
fn append_line(out: &mut Vec<char>, t: &[char])
    ensures
        final(out)@ == old(out)@ + t@ + seq!['\n'],
{
    let mut j: usize = 0;
    let ghost mid = out@;
    while j < t.len()
        invariant
            j <= t@.len(),
            out@ == mid + t@.take(j as int),
        decreases t@.len() - j,
    {
        out.push(t[j]);
        assert(mid + t@.take(j + 1) =~= (mid + t@.take(j as int)).push(t@[j as int]));
        j = j + 1;
    }
    assert(t@.take(t@.len() as int) =~= t@);
    out.push('\n');
}

/// The number of lines that differ between two texts: the lines at the same
/// position that differ, and the lines one text has beyond the other.
pub open spec fn changed_lines_spec(a: Seq<Seq<char>>, b: Seq<Seq<char>>) -> nat
    decreases a.len(),
{
    if a.len() == 0 {
        b.len()
    } else if b.len() == 0 {
        a.len()
    } else {
        changed_lines_spec(a.drop_first(), b.drop_first()) + if a[0] != b[0] {
            1nat
        } else {
            0nat
        }
    }
}

/// How many lines formatting changed.
pub fn changed_lines(before: &str, after: &str) -> (r: usize)
    ensures
        r == changed_lines_spec(text::lines(before@), text::lines(after@)),
{
    let a = split_lines(chars_of(before).as_slice());
    let b = split_lines(chars_of(after).as_slice());
    let ghost av = text::view_all(a@);
    let ghost bv = text::view_all(b@);
    let mut i: usize = 0;
    let mut n: usize = 0;
    assert(av.skip(0) =~= av);
    assert(bv.skip(0) =~= bv);
    while i < a.len() && i < b.len()
        invariant
            i <= a@.len(),
            i <= b@.len(),
            av == text::view_all(a@),
            bv == text::view_all(b@),
            n <= i,
            n + changed_lines_spec(av.skip(i as int), bv.skip(i as int)) == changed_lines_spec(av, bv),
        decreases a@.len() - i,
    {
        assert(av.skip(i as int)[0] == a@[i as int]@);
        assert(bv.skip(i as int)[0] == b@[i as int]@);
        assert(av.skip(i as int).drop_first() =~= av.skip(i + 1));
        assert(bv.skip(i as int).drop_first() =~= bv.skip(i + 1));
        if !text::eq_chars(a[i].as_slice(), b[i].as_slice()) {
            n = n + 1;
        }
        i = i + 1;
    }
    let rest = if a.len() > i {
        a.len() - i
    } else {
        b.len() - i
    };
    assert(changed_lines_spec(av.skip(i as int), bv.skip(i as int)) == rest) by {
        if a.len() > i {
            assert(bv.skip(i as int).len() == 0);
        } else {
            assert(av.skip(i as int).len() == 0);
        }
    }
    n + rest
}

/// Re-indents programs.
pub struct DuckyFormatter {
    config: FormatterConfig,
}

impl DuckyFormatter {
    /// The formatter's settings.
    pub closed spec fn config_view(&self) -> FormatterConfig {
        self.config
    }

    pub fn new(config: FormatterConfig) -> (r: Self)
        ensures
            r.config_view() == config,
    {
        DuckyFormatter { config }
    }

    /// The program re-indented: each non-blank line trimmed and indented by
    /// the depth of the blocks around it (tabs, or `indent_size` spaces per
    /// level), each line ended by a newline; the source unchanged when the
    /// formatter is disabled.
    #[verifier::spinoff_prover]
    #[verifier::rlimit(30)]
    pub fn format(&self, source: &str) -> (r: String)
        ensures
            r@ == formatted(self.config_view(), source@),
    {
        if !self.config.enabled {
            return source.to_string();
        }
        let src = chars_of(source);
        let lines = split_lines(src.as_slice());
        let ghost ls = text::view_all(lines@);
        let mut out: Vec<char> = Vec::new();
        let mut level: usize = 0;
        let mut i: usize = 0;
        assert(ls.skip(0) =~= ls);
        assert(out@ + format_lines(self.config, ls, 0) =~= format_lines(self.config, ls, 0));
        while i < lines.len()
            invariant
                i <= lines@.len(),
                ls == text::view_all(lines@),
                level <= i,
                out@ + format_lines(self.config, ls.skip(i as int), level as nat) == format_lines(
                    self.config,
                    ls,
                    0,
                ),
            decreases lines@.len() - i,
        {
            assert(ls.skip(i as int)[0] == lines@[i as int]@);
            assert(ls.skip(i as int).drop_first() =~= ls.skip(i + 1));
            let ghost before = out@;
            let t = trim_chars(lines[i].as_slice());
            if t.len() == 0 {
                out.push('\n');
                assert(before + (seq!['\n'] + format_lines(self.config, ls.skip(i + 1), level as nat))
                    =~= out@ + format_lines(self.config, ls.skip(i + 1), level as nat));
            } else {
                let closes = starts_with_str(t, "END_") || text::eq_str(t, "ELSE") || starts_with_str(
                    t,
                    "ELSE ",
                );
                if closes && level > 0 {
                    level = level - 1;
                }
                let ghost l = level as nat;
                push_indent(&mut out, self.config.use_tabs, self.config.indent_size, level);
                append_line(&mut out, t);
                let opens = starts_with_str(t, "IF ") || starts_with_str(t, "WHILE ")
                    || starts_with_str(t, "FUNCTION ") || text::eq_str(t, "ELSE") || starts_with_str(
                    t,
                    "ELSE ",
                ) || text::eq_str(t, "STRING") || text::eq_str(t, "STRINGLN") || starts_with_str(
                    t,
                    "STRING_",
                ) || starts_with_str(t, "STRINGLN_");
                if opens {
                    level = level + 1;
                }
                assert(before + (indentation(self.config, l) + t@ + seq!['\n'] + format_lines(
                    self.config,
                    ls.skip(i + 1),
                    level as nat,
                )) =~= out@ + format_lines(self.config, ls.skip(i + 1), level as nat));
            }
            i = i + 1;
        }
        assert(ls.skip(i as int) =~= Seq::<Seq<char>>::empty());
        assert(out@ + Seq::<char>::empty() =~= out@);
        proof {
            reveal_strlit("\n");
            assert("\n"@ =~= seq!['\n']);
        }
        if self.config.insert_final_newline && !text::ends_with_str(out.as_slice(), "\n") {
            out.push('\n');
        }
        string_of(out.as_slice())
    }
}

} // verus!
