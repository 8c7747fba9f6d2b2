//! Properties of the library as a whole, proved over the specifications
//! that its functions' contracts use.
use vstd::prelude::*;

use crate::checksum;
use crate::encoder;
use crate::formatter;
use crate::lexer;
use crate::linter;
use crate::model;
use crate::numbers;
use crate::text;

verus! {

/// A byte written as two hex digits parses as that byte.
proof fn lemma_byte_hex_parses(b: u8)
    ensures
        numbers::parse_hex(numbers::byte_hex(b), 255) == Some(b as nat),
{
    let s = numbers::byte_hex(b);
    encoder::lemma_hex_char_val((b / 16) as nat);
    encoder::lemma_hex_char_val((b % 16) as nat);
    assert(numbers::unsigned_body(s) == s);
    assert(s.drop_last() =~= seq![s[0]]);
    assert(seq![s[0]].drop_last() =~= Seq::<char>::empty());
    assert(numbers::hex_value(s) == (b / 16) as nat * 16 + (b % 16) as nat) by {
        reveal_with_fuel(numbers::hex_value, 3);
    }
    assert(numbers::all_hex(s));
}

/// Every character is a single UTF-8 byte.
pub open spec fn one_byte_chars(s: Seq<char>) -> bool {
    forall|i: int| 0 <= i < s.len() ==> text::utf8_width(#[trigger] s[i]) == 1
}

/// A hex dump is written in one-byte characters.
proof fn lemma_hex_lower_one_byte(b: Seq<u8>)
    ensures
        one_byte_chars(checksum::hex_lower(b)),
    decreases b.len(),
{
    if b.len() > 0 {
        lemma_hex_lower_one_byte(b.drop_last());
        let a = checksum::hex_lower(b.drop_last());
        let t = numbers::byte_hex(b.last());
        encoder::lemma_hex_char_val((b.last() / 16) as nat);
        encoder::lemma_hex_char_val((b.last() % 16) as nat);
        assert forall|i: int| 0 <= i < (a + t).len() implies text::utf8_width(#[trigger] (a + t)[i])
            == 1 by {
            if i >= a.len() {
                assert((a + t)[i] == t[i - a.len()]);
            } else {
                assert((a + t)[i] == a[i]);
            }
        }
    }
}

/// A text of one-byte characters is read two bytes at a time without
/// cutting a character.
proof fn lemma_pairs_cut_ok_one_byte(s: Seq<char>)
    requires
        one_byte_chars(s),
    ensures
        encoder::pairs_cut_ok(s),
    decreases s.len(),
{
    if s.len() >= 2 {
        assert(text::utf8_width(s[0]) == 1 && text::utf8_width(s[1]) == 1);
        assert forall|i: int| 0 <= i < s.skip(2).len() implies text::utf8_width(
            #[trigger] s.skip(2)[i],
        ) == 1 by {
            assert(s.skip(2)[i] == s[i + 2]);
        }
        lemma_pairs_cut_ok_one_byte(s.skip(2));
    } else if s.len() == 1 {
        assert(text::utf8_width(s[0]) == 1);
    }
}

/// Reading pairs goes on past a text of complete pairs.
proof fn lemma_pairs_bytes_append(s: Seq<char>, b: u8)
    requires
        s.len() % 2 == 0,
        one_byte_chars(s),
    ensures
        encoder::pairs_bytes(s + numbers::byte_hex(b)) == encoder::pairs_bytes(s) + seq![b],
    decreases s.len(),
{
    let t = numbers::byte_hex(b);
    if s.len() == 0 {
        assert(s + t =~= t);
        lemma_byte_hex_parses(b);
        assert(t.subrange(0, 2) =~= t);
        assert(t.skip(2) =~= Seq::<char>::empty());
        assert(encoder::pairs_bytes(t.skip(2)) =~= Seq::<u8>::empty());
        assert(encoder::pairs_bytes(t) == seq![b] + encoder::pairs_bytes(t.skip(2)));
        assert(encoder::pairs_bytes(s) =~= Seq::<u8>::empty());
        assert(seq![b] + Seq::<u8>::empty() =~= seq![b]);
        assert(Seq::<u8>::empty() + seq![b] =~= seq![b]);
    } else {
        let u = s + t;
        assert(u.len() >= 2);
        assert(u[0] == s[0]);
        assert(one_byte_chars(s.skip(2))) by {
            assert forall|i: int| 0 <= i < s.skip(2).len() implies text::utf8_width(
                #[trigger] s.skip(2)[i],
            ) == 1 by {
                assert(s.skip(2)[i] == s[i + 2]);
            }
        }
        assert(u.subrange(0, 2) =~= s.subrange(0, 2));
        assert(u.skip(2) =~= s.skip(2) + t);
        lemma_pairs_bytes_append(s.skip(2), b);
        match numbers::parse_hex(s.subrange(0, 2), 255) {
            Some(v) => {
                assert(encoder::pairs_bytes(u) == seq![v as u8] + encoder::pairs_bytes(u.skip(2)));
                assert(encoder::pairs_bytes(s) == seq![v as u8] + encoder::pairs_bytes(s.skip(2)));
                assert(seq![v as u8] + (encoder::pairs_bytes(s.skip(2)) + seq![b]) =~= seq![v as u8]
                    + encoder::pairs_bytes(s.skip(2)) + seq![b]);
            },
            None => {
                assert(encoder::pairs_bytes(u) == encoder::pairs_bytes(u.skip(2)));
                assert(encoder::pairs_bytes(s) == encoder::pairs_bytes(s.skip(2)));
            },
        }
    }
}

/// A hex dump has no spaces.
proof fn lemma_hex_lower_no_spaces(b: Seq<u8>)
    ensures
        encoder::remove_spaces(checksum::hex_lower(b)) == checksum::hex_lower(b),
    decreases b.len(),
{
    if b.len() > 0 {
        lemma_hex_lower_no_spaces(b.drop_last());
        let a = checksum::hex_lower(b.drop_last());
        let t = numbers::byte_hex(b.last());
        encoder::lemma_hex_char_val((b.last() / 16) as nat);
        encoder::lemma_hex_char_val((b.last() % 16) as nat);
        let p = |c: char| c != ' ';
        Seq::filter_distributes_over_add(a, t, p);
        assert(t =~= seq![].push(t[0]).push(t[1]));
        Seq::<char>::empty().lemma_filter_push(t[0], p);
        seq![].push(t[0]).lemma_filter_push(t[1], p);
        assert(Seq::<char>::empty().filter(p) =~= Seq::<char>::empty()) by {
            reveal_with_fuel(Seq::<char>::filter, 1);
        }
    }
}

/// The pairs of a hex dump are the dumped bytes.
proof fn lemma_hex_lower_pairs(b: Seq<u8>)
    ensures
        encoder::pairs_bytes(checksum::hex_lower(b)) == b,
    decreases b.len(),
{
    if b.len() == 0 {
        assert(encoder::pairs_bytes(checksum::hex_lower(b)) =~= b);
    } else {
        lemma_hex_lower_pairs(b.drop_last());
        lemma_hex_lower_one_byte(b.drop_last());
        checksum::lemma_hex_lower_len(b.drop_last());
        lemma_pairs_bytes_append(checksum::hex_lower(b.drop_last()), b.last());
        assert(b.drop_last() + seq![b.last()] =~= b);
    }
}

/// What `hex_to_byte_array` reads back of a hex dump is the dumped bytes
/// (and a hex dump is a text it reads without cutting a character).
pub proof fn law_hex_dump_reads_back(b: Seq<u8>)
    ensures
        encoder::pairs_cut_ok(encoder::remove_spaces(checksum::hex_lower(b))),
        encoder::pairs_bytes(encoder::remove_spaces(checksum::hex_lower(b))) == b,
{
    lemma_hex_lower_no_spaces(b);
    lemma_hex_lower_pairs(b);
    lemma_hex_lower_one_byte(b);
    lemma_pairs_cut_ok_one_byte(checksum::hex_lower(b));
}

/// Swapping the two bytes of a four-digit hex value twice gives it back.
pub proof fn law_swap_hex_twice(s: Seq<char>)
    requires
        s.len() == 4,
    ensures
        encoder::swap_hex_spec(encoder::swap_hex_spec(s)) == s,
{
    assert(encoder::swap_hex_spec(encoder::swap_hex_spec(s)) =~= s);
}

/// The four hex digits of a 16-bit value, most significant first: the bytes
/// of `dec_to_hex`, high byte then low byte.
proof fn lemma_dec_to_hex_bytes(v: u16)
    ensures
        encoder::dec_to_hex_spec(v as nat) == numbers::byte_hex((v / 256) as u8) + numbers::byte_hex(
            (v % 256) as u8,
        ),
{
    let n = v as nat;
    assert(((v / 256) as u8) / 16 == v / 4096) by (bit_vector);
    assert(((v / 256) as u8) % 16 == (v / 256) % 16) by (bit_vector);
    assert(((v % 256) as u8) / 16 == (v / 16) % 16) by (bit_vector);
    assert(((v % 256) as u8) % 16 == v % 16) by (bit_vector);
    let want = seq![
        numbers::hex_char((v / 4096) as nat),
        numbers::hex_char(((v / 256) % 16) as nat),
        numbers::hex_char(((v / 16) % 16) as nat),
        numbers::hex_char((v % 16) as nat),
    ];
    assert(numbers::byte_hex((v / 256) as u8) + numbers::byte_hex((v % 256) as u8) =~= want);
    assert(numbers::hex_char(0) == '0');
    reveal_with_fuel(encoder::hex_digits, 5);
    if v < 16 {
        assert(v / 4096 == 0 && (v / 256) % 16 == 0 && (v / 16) % 16 == 0) by (bit_vector)
            requires
                v < 16,
        ;
        assert(encoder::dec_to_hex_spec(n) =~= want);
    } else if v < 256 {
        assert(v / 4096 == 0 && (v / 256) % 16 == 0 && (v / 16) % 16 == v / 16 && v / 16 < 16)
            by (bit_vector)
            requires
                16 <= v < 256,
        ;
        assert(encoder::dec_to_hex_spec(n) =~= want);
    } else if v < 4096 {
        assert(v / 4096 == 0 && (v / 256) % 16 == v / 256 && v / 256 < 16 && (v / 16) / 16 == v
            / 256 && v / 16 >= 16) by (bit_vector)
            requires
                256 <= v < 4096,
        ;
        assert(encoder::dec_to_hex_spec(n) =~= want);
    } else {
        assert((v / 16) / 16 == v / 256 && (v / 256) / 16 == v / 4096 && v / 4096 < 16 && v
            / 256 >= 16 && v / 16 >= 256) by (bit_vector)
            requires
                4096 <= v,
        ;
        assert(encoder::dec_to_hex_spec(n) =~= want);
    }
}

/// Swapping the two bytes of a value's four-digit (big-endian) hex form
/// gives its little-endian hex form.
pub proof fn law_swap_hex_of_dec_to_hex(v: u16)
    ensures
        encoder::swap_hex_spec(encoder::dec_to_hex_spec(v as nat)) == encoder::hex_encode_spec(v),
{
    lemma_dec_to_hex_bytes(v);
    let s = encoder::dec_to_hex_spec(v as nat);
    assert(s.subrange(2, 4) =~= numbers::byte_hex((v % 256) as u8));
    assert(s.subrange(0, 2) =~= numbers::byte_hex((v / 256) as u8));
    assert(encoder::swap_hex_spec(s) =~= encoder::hex_encode_spec(v));
}

/// A string shorter than four characters is left as it is by the swap.
pub proof fn law_swap_hex_short(s: Seq<char>)
    requires
        s.len() < 4,
    ensures
        encoder::swap_hex_spec(s) == s,
{
}

/// Tokenizing a line does not depend on the whitespace around it, and
/// tokenizing a line is tokenizing its trimmed text.
pub proof fn law_tokenize_ignores_surrounding_whitespace(
    ws1: Seq<char>,
    l: Seq<char>,
    ws2: Seq<char>,
)
    requires
        text::all_ws(ws1),
        text::all_ws(ws2),
    ensures
        lexer::tokenize_spec(text::trim(ws1 + l + ws2)) == lexer::tokenize_spec(text::trim(l)),
        lexer::tokenize_spec(text::trim(text::trim(l))) == lexer::tokenize_spec(text::trim(l)),
{
    text::lemma_trim_surrounded(ws1, l, ws2);
    let (a, b) = text::lemma_trim_split(l);
    text::lemma_trim_surrounded(a, text::trim(l), b);
}

/// The sum of the bytes.
pub open spec fn byte_sum(b: Seq<u8>) -> nat
    decreases b.len(),
{
    if b.len() == 0 {
        0
    } else {
        byte_sum(b.drop_last()) + b.last() as nat
    }
}

proof fn lemma_byte_sum_concat(a: Seq<u8>, b: Seq<u8>)
    ensures
        byte_sum(a + b) == byte_sum(a) + byte_sum(b),
    decreases b.len(),
{
    if b.len() == 0 {
        assert(a + b =~= a);
    } else {
        assert((a + b).drop_last() =~= a + b.drop_last());
        lemma_byte_sum_concat(a, b.drop_last());
    }
}

/// The delay bytes of `delay` milliseconds add up to `delay`, one pair of
/// bytes per started block of 255 milliseconds.
pub proof fn law_delay_bytes_sum(delay: nat)
    ensures
        byte_sum(encoder::tokens_bytes(encoder::delay_tokens(delay))) == delay,
        encoder::tokens_bytes(encoder::delay_tokens(delay)).len() == 2 * ((delay + 254) / 255),
    decreases delay,
{
    reveal_strlit("00");
    reveal_strlit("FF");
    let z = "00"@;
    let f = "FF"@;
    assert(numbers::parse_hex(z, 255) == Some(0nat)) by {
        assert(numbers::unsigned_body(z) == z);
        assert(z.drop_last() =~= seq!['0']);
        assert(seq!['0'].drop_last() =~= Seq::<char>::empty());
        reveal_with_fuel(numbers::hex_value, 3);
    }
    if delay == 0 {
        assert(encoder::tokens_bytes(encoder::delay_tokens(0)) =~= Seq::<u8>::empty());
    } else if delay > 255 {
        assert(numbers::parse_hex(f, 255) == Some(255nat)) by {
            assert(numbers::unsigned_body(f) == f);
            assert(f.drop_last() =~= seq!['F']);
            assert(seq!['F'].drop_last() =~= Seq::<char>::empty());
            reveal_with_fuel(numbers::hex_value, 3);
        }
        let head = seq![z, f];
        let rest = encoder::delay_tokens((delay - 255) as nat);
        law_delay_bytes_sum((delay - 255) as nat);
        encoder::lemma_tokens_bytes_concat(head, rest);
        assert(head.drop_last() =~= seq![z]);
        assert(seq![z].drop_last() =~= Seq::<Seq<char>>::empty());
        assert(encoder::token_bytes(z) == seq![0u8]);
        assert(encoder::token_bytes(f) == seq![255u8]);
        assert(encoder::tokens_bytes(seq![z]) == encoder::tokens_bytes(Seq::<Seq<char>>::empty())
            + encoder::token_bytes(z));
        assert(encoder::tokens_bytes(head) == encoder::tokens_bytes(seq![z]) + encoder::token_bytes(f));
        assert(encoder::tokens_bytes(head) =~= seq![0u8, 255u8]);
        lemma_byte_sum_concat(seq![0u8, 255u8], encoder::tokens_bytes(rest));
        assert(seq![0u8, 255u8].drop_last() =~= seq![0u8]);
        assert(seq![0u8].drop_last() =~= Seq::<u8>::empty());
        assert(byte_sum(seq![0u8, 255u8]) == 255) by {
            reveal_with_fuel(byte_sum, 3);
        }
        assert(encoder::delay_tokens(delay) == head + rest);
    } else {
        let t = numbers::byte_hex(delay as u8);
        lemma_byte_hex_parses(delay as u8);
        encoder::lemma_byte_hex_roundtrip(delay as u8);
        let ts = seq![z, t];
        assert(ts.drop_last() =~= seq![z]);
        assert(seq![z].drop_last() =~= Seq::<Seq<char>>::empty());
        assert(encoder::token_bytes(z) == seq![0u8]);
        assert(encoder::token_bytes(t) == seq![delay as u8]);
        assert(encoder::tokens_bytes(seq![z]) == encoder::tokens_bytes(Seq::<Seq<char>>::empty())
            + encoder::token_bytes(z));
        assert(encoder::tokens_bytes(ts) == encoder::tokens_bytes(seq![z]) + encoder::token_bytes(t));
        assert(encoder::tokens_bytes(ts) =~= seq![0u8, delay as u8]);
        assert(seq![0u8, delay as u8].drop_last() =~= seq![0u8]);
        assert(seq![0u8].drop_last() =~= Seq::<u8>::empty());
        assert(byte_sum(seq![0u8, delay as u8]) == delay) by {
            reveal_with_fuel(byte_sum, 3);
        }
    }
}

/// Relocation keeps the length and the bytes before position `i + 2`.
proof fn lemma_relocate_keeps(b: Seq<u8>, i: int, shift: nat)
    requires
        0 <= i,
    ensures
        model::relocate(b, i, shift).len() == b.len(),
        forall|k: int| 0 <= k < i + 2 && k < b.len() ==> #[trigger] model::relocate(b, i, shift)[k] == b[k],
    decreases b.len() - i,
{
    if i + 4 > b.len() {
    } else if (b[i] == 0xF8 && b[i + 1] == 0xF8) || (b[i] == 0xF7 && b[i + 1] == 0xF7) {
        let v = (b[i + 2] as nat * 256 + b[i + 3] as nat + shift) % 65536;
        let b2 = b.update(i + 2, (v % 256) as u8).update(i + 3, (v / 256) as u8);
        lemma_relocate_keeps(b2, i + 4, shift);
    } else {
        lemma_relocate_keeps(b, i + 2, shift);
    }
}

/// A payload is made of 16-bit words: it has an even number of bytes.
pub proof fn law_payload_whole_words(m: model::Model)
    ensures
        model::finalize(m).1.len() % 2 == 0,
{
    let m1 = if m.lang_pack {
        model::generate_lang_pack(m)
    } else {
        m
    };
    let (m2, shift) = model::with_header(m1);
    lemma_relocate_keeps(model::pad_even(m2.out), 0, shift);
}

/// A payload with variables starts with the `E8E8` marker of the values block.
pub proof fn law_payload_values_first(m: model::Model)
    requires
        (if m.lang_pack {
            model::generate_lang_pack(m)
        } else {
            m
        }).values.len() > 1,
    ensures
        model::finalize(m).1.len() >= 4,
        model::finalize(m).1[0] == 0xE8,
        model::finalize(m).1[1] == 0xE8,
{
    let m1 = if m.lang_pack {
        model::generate_lang_pack(m)
    } else {
        m
    };
    let (m2, shift) = model::with_header(m1);
    lemma_relocate_keeps(model::pad_even(m2.out), 0, shift);
    let b = model::pad_even(m2.out);
    assert(b[0] == 0xE8 && b[1] == 0xE8);
    assert(model::finalize(m).1[0] == b[0]);
    assert(model::finalize(m).1[1] == b[1]);
}

/// Every issue the linter reports names a line of the program.
pub proof fn law_lint_issue_lines(config: linter::LinterConfig, source: Seq<char>)
    ensures
        forall|k: int|
            0 <= k < linter::lint_issues(config, source).len() ==> (
            #[trigger] linter::lint_issues(config, source)[k]).0 <= text::lines(source).len(),
{
    if config.enabled {
        let ls = text::lines(source);
        lemma_lines_issues_range(config, ls, 1);
        let body = linter::lines_issues(config, ls, 1);
        assert forall|k: int| 0 <= k < linter::lint_issues(config, source).len() implies (
        #[trigger] linter::lint_issues(config, source)[k]).0 <= ls.len() by {
            if k < body.len() {
                assert(linter::lint_issues(config, source)[k] == body[k]);
            }
        }
    }
}

proof fn lemma_lines_issues_range(config: linter::LinterConfig, ls: Seq<Seq<char>>, n: nat)
    ensures
        forall|k: int|
            0 <= k < linter::lines_issues(config, ls, n).len() ==> n <= (
            #[trigger] linter::lines_issues(config, ls, n)[k]).0 < n + ls.len(),
    decreases ls.len(),
{
    if ls.len() > 0 {
        lemma_lines_issues_range(config, ls.drop_first(), n + 1);
        let first = linter::line_issues(config, ls[0], n);
        let rest = linter::lines_issues(config, ls.drop_first(), n + 1);
        assert forall|k: int| 0 <= k < first.len() implies (#[trigger] first[k]).0 == n by {
        }
        assert forall|k: int| 0 <= k < linter::lines_issues(config, ls, n).len() implies n <= (
        #[trigger] linter::lines_issues(config, ls, n)[k]).0 < n + ls.len() by {
            if k < first.len() {
                assert(linter::lines_issues(config, ls, n)[k] == first[k]);
            } else {
                assert(linter::lines_issues(config, ls, n)[k] == rest[k - first.len()]);
            }
        }
    }
}

/// A disabled formatter gives the program back unchanged, and a disabled
/// linter reports nothing.
pub proof fn law_disabled_tools(
    fc: formatter::FormatterConfig,
    lc: linter::LinterConfig,
    source: Seq<char>,
)
    requires
        !fc.enabled,
        !lc.enabled,
    ensures
        formatter::formatted(fc, source) == source,
        linter::lint_issues(lc, source).len() == 0,
{
}

/// The text lines `xs`, each followed by a new line.
pub open spec fn join_lines(xs: Seq<Seq<char>>) -> Seq<char>
    decreases xs.len(),
{
    if xs.len() == 0 {
        seq![]
    } else {
        xs[0] + seq!['\n'] + join_lines(xs.drop_first())
    }
}

/// The lines the formatter writes, from the block depth `level` on.
pub open spec fn formatted_lines(config: formatter::FormatterConfig, ls: Seq<Seq<char>>, level: nat) -> Seq<Seq<char>>
    decreases ls.len(),
{
    if ls.len() == 0 {
        seq![]
    } else {
        let t = text::trim(ls[0]);
        if t.len() == 0 {
            seq![seq![]] + formatted_lines(config, ls.drop_first(), level)
        } else {
            let l = if formatter::closes_block(t) && level > 0 {
                (level - 1) as nat
            } else if formatter::closes_block(t) {
                0
            } else {
                level
            };
            let next = if formatter::opens_block(t) {
                l + 1
            } else {
                l
            };
            seq![formatter::indentation(config, l) + t] + formatted_lines(
                config,
                ls.drop_first(),
                next,
            )
        }
    }
}

proof fn lemma_format_lines_join(config: formatter::FormatterConfig, ls: Seq<Seq<char>>, level: nat)
    ensures
        formatter::format_lines(config, ls, level) == join_lines(formatted_lines(config, ls, level)),
    decreases ls.len(),
{
    if ls.len() > 0 {
        let t = text::trim(ls[0]);
        let l = if formatter::closes_block(t) && level > 0 {
            (level - 1) as nat
        } else if formatter::closes_block(t) {
            0
        } else {
            level
        };
        let next = if formatter::opens_block(t) {
            l + 1
        } else {
            l
        };
        if t.len() == 0 {
            lemma_format_lines_join(config, ls.drop_first(), level);
            let xs = formatted_lines(config, ls, level);
            assert(xs.drop_first() == formatted_lines(config, ls.drop_first(), level));
            assert(seq!['\n'] + join_lines(xs.drop_first()) =~= xs[0] + seq!['\n'] + join_lines(
                xs.drop_first(),
            ));
        } else {
            lemma_format_lines_join(config, ls.drop_first(), next);
            let xs = formatted_lines(config, ls, level);
            assert(xs.drop_first() == formatted_lines(config, ls.drop_first(), next));
            assert(formatter::indentation(config, l) + t + seq!['\n'] + join_lines(xs.drop_first())
                =~= xs[0] + seq!['\n'] + join_lines(xs.drop_first()));
        }
    }
}

/// A line with no new line in it, that does not end in a carriage return.
pub open spec fn plain_line(x: Seq<char>) -> bool {
    !x.contains('\n') && (x.len() == 0 || x.last() != '\r')
}

proof fn lemma_lines_of_join(xs: Seq<Seq<char>>)
    requires
        forall|k: int| 0 <= k < xs.len() ==> plain_line(#[trigger] xs[k]),
    ensures
        text::lines(join_lines(xs)) == xs,
    decreases xs.len(),
{
    if xs.len() > 0 {
        let x = xs[0];
        let rest = join_lines(xs.drop_first());
        let s = join_lines(xs);
        assert(s == x + seq!['\n'] + rest);
        assert forall|m: int| 0 <= m < x.len() implies s[m] != '\n' by {
            assert(s[m] == x[m]);
            if x[m] == '\n' {
                assert(x.contains('\n'));
            }
        }
        assert(s[x.len() as int] == '\n');
        text::lemma_index_of_char(s, '\n', x.len() as int);
        assert(s.take(x.len() as int) =~= x);
        assert(s.skip(x.len() + 1 as int) =~= rest);
        assert(text::strip_cr(x) == x);
        assert forall|k: int| 0 <= k < xs.drop_first().len() implies plain_line(
            #[trigger] xs.drop_first()[k],
        ) by {
            assert(xs.drop_first()[k] == xs[k + 1]);
        }
        lemma_lines_of_join(xs.drop_first());
        assert(text::lines(s) =~= seq![x] + xs.drop_first());
    }
}

/// A trimmed text after whitespace trims back to itself.
proof fn lemma_trim_after_indent(ind: Seq<char>, t: Seq<char>)
    requires
        text::all_ws(ind),
        t.len() > 0,
        !text::is_ws(t[0]),
        !text::is_ws(t.last()),
    ensures
        text::trim(ind + t) == t,
    decreases ind.len(),
{
    if ind.len() > 0 {
        let s = ind + t;
        assert(s.drop_first() =~= ind.drop_first() + t);
        assert(text::trim_start(s) == text::trim_start(s.drop_first()));
        lemma_trim_after_indent(ind.drop_first(), t);
        assert(text::all_ws(ind.drop_first())) by {
            assert forall|i: int| 0 <= i < ind.drop_first().len() implies text::is_ws(
                #[trigger] ind.drop_first()[i],
            ) by {
                assert(ind.drop_first()[i] == ind[i + 1]);
            }
        }
    } else {
        assert(ind + t =~= t);
        assert(text::trim_start(t) == t);
        assert(text::trim_end(t) == t);
    }
}

proof fn lemma_trimmed_ends(s: Seq<char>)
    ensures
        text::trim(s).len() > 0 ==> !text::is_ws(text::trim(s)[0]) && !text::is_ws(
            text::trim(s).last(),
        ),
        forall|c: char| text::trim(s).contains(c) ==> s.contains(c),
{
    text::lemma_trim_start_stops(s);
    let a = text::trim_start(s);
    text::lemma_trim_end_stops(a);
    let b = text::trim_end(a);
    if b.len() > 0 {
        assert(b[0] == a[0]);
    }
    assert forall|c: char| b.contains(c) implies s.contains(c) by {
        let i = choose|i: int| 0 <= i < b.len() && b[i] == c;
        assert(b[i] == a[i]);
        assert(a[i] == s[s.len() - a.len() + i]);
    }
}

proof fn lemma_indentation_ws(config: formatter::FormatterConfig, l: nat)
    ensures
        text::all_ws(formatter::indentation(config, l)),
        !formatter::indentation(config, l).contains('\n'),
{
    let ind = formatter::indentation(config, l);
    assert forall|i: int| 0 <= i < ind.len() implies text::is_ws(#[trigger] ind[i]) && ind[i] != '\n' by {
    }
}

proof fn lemma_formatted_lines_plain(config: formatter::FormatterConfig, ls: Seq<Seq<char>>, level: nat)
    requires
        forall|k: int| 0 <= k < ls.len() ==> !(#[trigger] ls[k]).contains('\n'),
    ensures
        forall|k: int| 0 <= k < formatted_lines(config, ls, level).len() ==> plain_line(
            #[trigger] formatted_lines(config, ls, level)[k],
        ),
    decreases ls.len(),
{
    if ls.len() > 0 {
        let t = text::trim(ls[0]);
        let l = if formatter::closes_block(t) && level > 0 {
            (level - 1) as nat
        } else if formatter::closes_block(t) {
            0
        } else {
            level
        };
        let next = if formatter::opens_block(t) {
            l + 1
        } else {
            l
        };
        let nl = if t.len() == 0 {
            level
        } else {
            next
        };
        assert forall|k: int| 0 <= k < ls.drop_first().len() implies !(
        #[trigger] ls.drop_first()[k]).contains('\n') by {
            assert(ls.drop_first()[k] == ls[k + 1]);
        }
        lemma_formatted_lines_plain(config, ls.drop_first(), nl);
        let xs = formatted_lines(config, ls, level);
        assert(xs.drop_first() == formatted_lines(config, ls.drop_first(), nl));
        lemma_trimmed_ends(ls[0]);
        if t.len() > 0 {
            let x = formatter::indentation(config, l) + t;
            lemma_indentation_ws(config, l);
            assert(!x.contains('\n')) by {
                if x.contains('\n') {
                    let i = choose|i: int| 0 <= i < x.len() && x[i] == '\n';
                    if i < formatter::indentation(config, l).len() {
                        assert(formatter::indentation(config, l)[i] == '\n');
                    } else {
                        assert(t[i - formatter::indentation(config, l).len()] == '\n');
                        assert(t.contains('\n'));
                    }
                }
            }
            assert(x.last() == t.last());
            assert(text::is_ws('\r'));
        }
        assert forall|k: int| 0 <= k < xs.len() implies plain_line(#[trigger] xs[k]) by {
            if k > 0 {
                assert(xs[k] == xs.drop_first()[k - 1]);
            } else if t.len() == 0 {
                assert(xs[0] =~= Seq::<char>::empty());
            }
        }
    }
}

proof fn lemma_formatted_lines_fixed(config: formatter::FormatterConfig, ls: Seq<Seq<char>>, level: nat)
    ensures
        formatter::format_lines(config, formatted_lines(config, ls, level), level)
            == formatter::format_lines(config, ls, level),
    decreases ls.len(),
{
    if ls.len() > 0 {
        let t = text::trim(ls[0]);
        let l = if formatter::closes_block(t) && level > 0 {
            (level - 1) as nat
        } else if formatter::closes_block(t) {
            0
        } else {
            level
        };
        let next = if formatter::opens_block(t) {
            l + 1
        } else {
            l
        };
        let xs = formatted_lines(config, ls, level);
        lemma_trimmed_ends(ls[0]);
        if t.len() == 0 {
            assert(xs.drop_first() == formatted_lines(config, ls.drop_first(), level));
            assert(text::trim(xs[0]) =~= Seq::<char>::empty()) by {
                assert(xs[0] =~= Seq::<char>::empty());
                assert(text::trim_start(xs[0]) == xs[0]);
                assert(text::trim_end(xs[0]) == xs[0]);
            }
            lemma_formatted_lines_fixed(config, ls.drop_first(), level);
        } else {
            assert(xs.drop_first() == formatted_lines(config, ls.drop_first(), next));
            lemma_indentation_ws(config, l);
            lemma_trim_after_indent(formatter::indentation(config, l), t);
            assert(text::trim(xs[0]) == t);
            lemma_formatted_lines_fixed(config, ls.drop_first(), next);
        }
    }
}

proof fn lemma_index_of_char_first(s: Seq<char>, c: char)
    ensures
        forall|m: int| 0 <= m < text::index_of_char(s, c) && m < s.len() ==> s[m] != c,
    decreases s.len(),
{
    if s.len() > 0 && s[0] != c {
        lemma_index_of_char_first(s.drop_first(), c);
        assert forall|m: int| 0 <= m < text::index_of_char(s, c) && m < s.len() implies s[m] != c by {
            if m > 0 {
                assert(s[m] == s.drop_first()[m - 1]);
            }
        }
    }
}

proof fn lemma_lines_no_newline(s: Seq<char>)
    ensures
        forall|k: int| 0 <= k < text::lines(s).len() ==> !(#[trigger] text::lines(s)[k]).contains('\n'),
    decreases s.len(),
{
    if s.len() > 0 {
        let k = text::index_of_char(s, '\n');
        text::lemma_index_of_char_bound(s, '\n');
        lemma_index_of_char_first(s, '\n');
        if k >= s.len() {
            assert(text::lines(s) == seq![s]);
            assert(!s.contains('\n'));
        } else {
            let first = text::strip_cr(s.take(k as int));
            assert(!first.contains('\n')) by {
                if first.contains('\n') {
                    let i = choose|i: int| 0 <= i < first.len() && first[i] == '\n';
                    assert(first[i] == s[i]);
                }
            }
            lemma_lines_no_newline(s.skip(k + 1 as int));
            let rest = text::lines(s.skip(k + 1 as int));
            assert(text::lines(s) == seq![first] + rest);
            assert forall|m: int| 0 <= m < text::lines(s).len() implies !(
            #[trigger] text::lines(s)[m]).contains('\n') by {
                if m > 0 {
                    assert(text::lines(s)[m] == rest[m - 1]);
                }
            }
        }
    }
}

/// Formatting a formatted script changes nothing: the formatter is
/// idempotent.
pub proof fn law_format_idempotent(config: formatter::FormatterConfig, source: Seq<char>)
    ensures
        formatter::formatted(config, formatter::formatted(config, source))
            == formatter::formatted(config, source),
{
    if config.enabled {
        let ls = text::lines(source);
        let f = formatter::format_lines(config, ls, 0);
        let xs = formatted_lines(config, ls, 0);
        lemma_format_lines_join(config, ls, 0);
        lemma_lines_no_newline(source);
        lemma_formatted_lines_plain(config, ls, 0);
        lemma_lines_of_join(xs);
        lemma_formatted_lines_fixed(config, ls, 0);
        let out = formatter::formatted(config, source);
        if xs.len() > 0 {
            assert(f == xs[0] + seq!['\n'] + join_lines(xs.drop_first()));
            assert(f.len() > 0);
            assert(text::ends_with(f, seq!['\n'])) by {
                lemma_join_lines_ends(xs);
            }
            assert(out == f);
            assert(text::lines(out) == xs);
            assert(formatter::format_lines(config, text::lines(out), 0) == f);
        } else {
            assert(f =~= Seq::<char>::empty());
            if config.insert_final_newline {
                assert(!text::ends_with(f, seq!['\n']));
                assert(out =~= seq!['\n']);
                let ls2 = text::lines(out);
                text::lemma_index_of_char(out, '\n', 0);
                assert(out.take(0) =~= Seq::<char>::empty());
                assert(out.skip(1) =~= Seq::<char>::empty());
                assert(ls2 =~= seq![Seq::<char>::empty()]);
                let t0 = text::trim(ls2[0]);
                assert(text::trim_start(ls2[0]) == ls2[0]);
                assert(text::trim_end(ls2[0]) == ls2[0]);
                assert(t0.len() == 0);
                assert(ls2.drop_first() =~= Seq::<Seq<char>>::empty());
                assert(formatter::format_lines(config, ls2, 0) =~= seq!['\n']);
                assert(text::ends_with(seq!['\n'], seq!['\n'])) by {
                    assert(seq!['\n'].skip(0) =~= seq!['\n']);
                }
            } else {
                assert(out == f);
                assert(text::lines(out) =~= Seq::<Seq<char>>::empty());
            }
        }
    }
}

proof fn lemma_join_lines_ends(xs: Seq<Seq<char>>)
    requires
        xs.len() > 0,
    ensures
        text::ends_with(join_lines(xs), seq!['\n']),
    decreases xs.len(),
{
    let j = join_lines(xs);
    if xs.len() == 1 {
        assert(join_lines(xs.drop_first()) =~= Seq::<char>::empty());
        assert(j =~= xs[0] + seq!['\n']);
    } else {
        lemma_join_lines_ends(xs.drop_first());
        let r = join_lines(xs.drop_first());
        assert(j == xs[0] + seq!['\n'] + r);
    }
    assert(j.skip(j.len() - 1) =~= seq!['\n']) by {
        assert(j.len() >= 1);
        if xs.len() > 1 {
            let r = join_lines(xs.drop_first());
            assert(r.skip(r.len() - 1) =~= seq!['\n']);
            assert(j[j.len() - 1] == r[r.len() - 1]);
        }
    }
}

/// A formatted line: empty, or indentation made only of the configured
/// character followed by text that neither starts nor ends with whitespace.
pub open spec fn tidy_line(config: formatter::FormatterConfig, x: Seq<char>) -> bool {
    x.len() == 0 || exists|n: int|
        0 <= n < x.len() && (forall|i: int|
            0 <= i < n ==> (#[trigger] x[i]) == (if config.use_tabs {
                '\t'
            } else {
                ' '
            })) && !text::is_ws(x[n]) && !text::is_ws(x.last())
}

proof fn lemma_formatted_lines_tidy(config: formatter::FormatterConfig, ls: Seq<Seq<char>>, level: nat)
    ensures
        forall|k: int| 0 <= k < formatted_lines(config, ls, level).len() ==> tidy_line(
            config,
            #[trigger] formatted_lines(config, ls, level)[k],
        ),
    decreases ls.len(),
{
    if ls.len() > 0 {
        let t = text::trim(ls[0]);
        let l = if formatter::closes_block(t) && level > 0 {
            (level - 1) as nat
        } else if formatter::closes_block(t) {
            0
        } else {
            level
        };
        let next = if formatter::opens_block(t) {
            l + 1
        } else {
            l
        };
        let nl = if t.len() == 0 {
            level
        } else {
            next
        };
        lemma_formatted_lines_tidy(config, ls.drop_first(), nl);
        let xs = formatted_lines(config, ls, level);
        assert(xs.drop_first() == formatted_lines(config, ls.drop_first(), nl));
        lemma_trimmed_ends(ls[0]);
        if t.len() > 0 {
            let ind = formatter::indentation(config, l);
            let x = ind + t;
            assert(xs[0] == x);
            let c = if config.use_tabs {
                '\t'
            } else {
                ' '
            };
            assert(forall|i: int| 0 <= i < ind.len() ==> (#[trigger] x[i]) == c);
            assert(x[ind.len() as int] == t[0]);
            assert(x.last() == t.last());
            assert(tidy_line(config, x));
        }
        assert forall|k: int| 0 <= k < xs.len() implies tidy_line(config, #[trigger] xs[k]) by {
            if k > 0 {
                assert(xs[k] == xs.drop_first()[k - 1]);
            } else if t.len() == 0 {
                assert(xs[0] =~= Seq::<char>::empty());
            }
        }
    }
}

/// Every line the formatter writes is empty or is indentation made only of
/// tabs (or only of spaces, as configured) followed by text with no leading
/// or trailing whitespace.
pub proof fn law_format_tidies_lines(config: formatter::FormatterConfig, source: Seq<char>)
    requires
        config.enabled,
    ensures
        forall|k: int|
            0 <= k < text::lines(formatter::formatted(config, source)).len() ==> tidy_line(
                config,
                #[trigger] text::lines(formatter::formatted(config, source))[k],
            ),
{
    let ls = text::lines(source);
    let f = formatter::format_lines(config, ls, 0);
    let xs = formatted_lines(config, ls, 0);
    lemma_format_lines_join(config, ls, 0);
    lemma_lines_no_newline(source);
    lemma_formatted_lines_plain(config, ls, 0);
    lemma_lines_of_join(xs);
    lemma_formatted_lines_tidy(config, ls, 0);
    let out = formatter::formatted(config, source);
    if xs.len() > 0 {
        lemma_join_lines_ends(xs);
        assert(out == f);
    } else {
        assert(f =~= Seq::<char>::empty());
        if config.insert_final_newline {
            assert(!text::ends_with(f, seq!['\n']));
            assert(out =~= seq!['\n']);
            text::lemma_index_of_char(out, '\n', 0);
            assert(out.take(0) =~= Seq::<char>::empty());
            assert(out.skip(1) =~= Seq::<char>::empty());
            assert(text::lines(out) =~= seq![Seq::<char>::empty()]);
        } else {
            assert(out == f);
        }
    }
}

/// With a final newline asked for, formatted output ends with one.
pub proof fn law_format_final_newline(config: formatter::FormatterConfig, source: Seq<char>)
    requires
        config.enabled,
        config.insert_final_newline,
    ensures
        text::ends_with(formatter::formatted(config, source), seq!['\n']),
{
    let f = formatter::format_lines(config, text::lines(source), 0);
    if !text::ends_with(f, seq!['\n']) {
        let g = f.push('\n');
        assert(g.skip(g.len() - 1) =~= seq!['\n']);
    }
}


/// The depth the formatter has reached after one more line.
spec fn level_step(l: Seq<char>, level: nat) -> nat {
    let t = text::trim(l);
    if t.len() == 0 {
        level
    } else {
        let d = if formatter::closes_block(t) && level > 0 {
            (level - 1) as nat
        } else if formatter::closes_block(t) {
            0
        } else {
            level
        };
        if formatter::opens_block(t) {
            d + 1
        } else {
            d
        }
    }
}

/// The depth the formatter has reached after the first `k` lines.
spec fn level_after(ls: Seq<Seq<char>>, level: nat, k: int) -> nat
    decreases k,
{
    if k <= 0 {
        level
    } else {
        level_step(ls[k - 1], level_after(ls, level, k - 1))
    }
}

/// The line the formatter writes for `l` at depth `level`.
spec fn line_out(config: formatter::FormatterConfig, l: Seq<char>, level: nat) -> Seq<char> {
    let t = text::trim(l);
    if t.len() == 0 {
        seq![]
    } else {
        let d = if formatter::closes_block(t) && level > 0 {
            (level - 1) as nat
        } else if formatter::closes_block(t) {
            0
        } else {
            level
        };
        formatter::indentation(config, d) + t
    }
}

proof fn lemma_level_after_shift(ls: Seq<Seq<char>>, level: nat, k: int)
    requires
        ls.len() > 0,
        1 <= k <= ls.len(),
    ensures
        level_after(ls, level, k) == level_after(ls.drop_first(), level_step(ls[0], level), k - 1),
    decreases k,
{
    assert(level_after(ls, level, 0) == level);
    assert(level_after(ls.drop_first(), level_step(ls[0], level), 0) == level_step(ls[0], level));
    if k > 1 {
        lemma_level_after_shift(ls, level, k - 1);
        assert(ls.drop_first()[k - 2] == ls[k - 1]);
    }
}

proof fn lemma_formatted_lines_at(config: formatter::FormatterConfig, ls: Seq<Seq<char>>, level: nat, k: int)
    requires
        0 <= k < ls.len(),
    ensures
        formatted_lines(config, ls, level).len() == ls.len(),
        formatted_lines(config, ls, level)[k] == line_out(config, ls[k], level_after(ls, level, k)),
    decreases ls.len(),
{
    let rest = formatted_lines(config, ls.drop_first(), level_step(ls[0], level));
    assert(formatted_lines(config, ls, level) == seq![line_out(config, ls[0], level)] + rest);
    if k > 0 {
        lemma_formatted_lines_at(config, ls.drop_first(), level_step(ls[0], level), k - 1);
        lemma_level_after_shift(ls, level, k);
        assert(ls.drop_first()[k - 1] == ls[k]);
    } else if ls.len() > 1 {
        lemma_formatted_lines_at(config, ls.drop_first(), level_step(ls[0], level), 0);
    } else {
        assert(rest =~= Seq::<Seq<char>>::empty());
    }
}

/// The lines of formatted output are the formatter's lines of the source.
proof fn lemma_formatted_output_lines(config: formatter::FormatterConfig, source: Seq<char>)
    requires
        config.enabled,
        text::lines(source).len() > 0,
    ensures
        text::lines(formatter::formatted(config, source)) == formatted_lines(
            config,
            text::lines(source),
            0,
        ),
{
    let ls = text::lines(source);
    let f = formatter::format_lines(config, ls, 0);
    let xs = formatted_lines(config, ls, 0);
    lemma_formatted_lines_at(config, ls, 0, 0);
    lemma_format_lines_join(config, ls, 0);
    lemma_lines_no_newline(source);
    lemma_formatted_lines_plain(config, ls, 0);
    lemma_lines_of_join(xs);
    lemma_join_lines_ends(xs);
}

/// The width of one level of indentation.
pub open spec fn indent_unit(config: formatter::FormatterConfig) -> nat {
    if config.use_tabs {
        1
    } else {
        config.indent_size as nat
    }
}

/// A line that opens an IF, WHILE or FUNCTION block (its trimmed text
/// starts with `IF `, `WHILE ` or `FUNCTION `) opens a level: the next
/// non-blank line after it, unless it closes a block (`END_...` or
/// `ELSE...`), is written one level deeper, its indentation one unit wider.
pub proof fn law_format_opener_indents_next(
    config: formatter::FormatterConfig,
    source: Seq<char>,
    i: int,
    j: int,
    p: Seq<char>,
)
    requires
        config.enabled,
        0 <= i < j < text::lines(source).len(),
        p == "IF "@ || p == "WHILE "@ || p == "FUNCTION "@,
        text::starts_with(text::trim(text::lines(source)[i]), p),
        forall|k: int| i < k < j ==> (#[trigger] text::trim(text::lines(source)[k])).len() == 0,
        text::trim(text::lines(source)[j]).len() > 0,
        !text::starts_with(text::trim(text::lines(source)[j]), "END_"@),
        !text::starts_with(text::trim(text::lines(source)[j]), "ELSE"@),
    ensures
        ({
            let ls = text::lines(source);
            let out = text::lines(formatter::formatted(config, source));
            &&& out.len() == ls.len()
            &&& out[i].len() >= text::trim(ls[i]).len()
            &&& out[j].len() >= text::trim(ls[j]).len()
            &&& out[i].skip(out[i].len() - text::trim(ls[i]).len()) == text::trim(ls[i])
            &&& out[j].skip(out[j].len() - text::trim(ls[j]).len()) == text::trim(ls[j])
            &&& out[j].len() - text::trim(ls[j]).len() == out[i].len() - text::trim(ls[i]).len()
                + indent_unit(config)
        }),
{
    let ls = text::lines(source);
    let ti = text::trim(ls[i]);
    let tj = text::trim(ls[j]);
    lemma_formatted_output_lines(config, source);
    lemma_formatted_lines_at(config, ls, 0, i);
    lemma_formatted_lines_at(config, ls, 0, j);
    reveal_strlit("IF ");
    reveal_strlit("WHILE ");
    reveal_strlit("FUNCTION ");
    reveal_strlit("END_");
    reveal_strlit("ELSE");
    reveal_strlit("ELSE ");
    assert(ti.take(p.len() as int)[0] == ti[0]);
    assert(ti[0] != 'E');
    assert(!text::starts_with(ti, "END_"@)) by {
        if text::starts_with(ti, "END_"@) {
            assert(ti.take(4)[0] == ti[0]);
        }
    }
    assert(ti != "ELSE"@);
    assert(!text::starts_with(ti, "ELSE "@)) by {
        if text::starts_with(ti, "ELSE "@) {
            assert(ti.take(5)[0] == ti[0]);
        }
    }
    assert(!formatter::closes_block(ti));
    assert(formatter::opens_block(ti));
    assert(tj != "ELSE"@) by {
        if tj == "ELSE"@ {
            assert(tj.take(4) =~= "ELSE"@);
            assert(text::starts_with(tj, "ELSE"@));
        }
    }
    assert(!text::starts_with(tj, "ELSE "@)) by {
        if text::starts_with(tj, "ELSE "@) {
            assert(tj.take(4) =~= tj.take(5).take(4));
            assert("ELSE "@.take(4) =~= "ELSE"@);
            assert(text::starts_with(tj, "ELSE"@));
        }
    }
    assert(!formatter::closes_block(tj));
    let li = level_after(ls, 0, i);
    assert(level_after(ls, 0, i + 1) == li + 1);
    assert forall|k: int| i + 1 <= k <= j implies level_after(ls, 0, k) == li + 1 by {
        lemma_level_after_blank(ls, i + 1, k, li + 1);
    }
    let wi = formatter::indentation(config, li);
    let wj = formatter::indentation(config, li + 1);
    if config.use_tabs {
        assert(wi.len() == li);
        assert(wj.len() == li + 1);
    } else {
        assert(wi.len() == li * (config.indent_size as nat));
        assert(wj.len() == (li + 1) * (config.indent_size as nat));
    }
    assert(li * 1 == li && (li + 1) * 1 == li + 1) by (nonlinear_arith);
    assert((li + 1) * indent_unit(config) == li * indent_unit(config) + indent_unit(config)) by (nonlinear_arith);
    assert((wi + ti).skip(wi.len() as int) =~= ti);
    assert((wj + tj).skip(wj.len() as int) =~= tj);
}

/// In particular a FUNCTION line: the next non-blank line after it, unless
/// it closes a block, is indented one unit deeper than the FUNCTION line.
pub proof fn law_format_function_opens_block(
    config: formatter::FormatterConfig,
    source: Seq<char>,
    i: int,
    j: int,
)
    requires
        config.enabled,
        0 <= i < j < text::lines(source).len(),
        text::starts_with(text::trim(text::lines(source)[i]), "FUNCTION "@),
        forall|k: int| i < k < j ==> (#[trigger] text::trim(text::lines(source)[k])).len() == 0,
        text::trim(text::lines(source)[j]).len() > 0,
        !text::starts_with(text::trim(text::lines(source)[j]), "END_"@),
        !text::starts_with(text::trim(text::lines(source)[j]), "ELSE"@),
    ensures
        ({
            let ls = text::lines(source);
            let out = text::lines(formatter::formatted(config, source));
            &&& out.len() == ls.len()
            &&& out[i].len() >= text::trim(ls[i]).len()
            &&& out[j].len() >= text::trim(ls[j]).len()
            &&& out[i].skip(out[i].len() - text::trim(ls[i]).len()) == text::trim(ls[i])
            &&& out[j].skip(out[j].len() - text::trim(ls[j]).len()) == text::trim(ls[j])
            &&& out[j].len() - text::trim(ls[j]).len() == out[i].len() - text::trim(ls[i]).len()
                + indent_unit(config)
        }),
{
    law_format_opener_indents_next(config, source, i, j, "FUNCTION "@);
}

/// A block's END line written right after its opening line (only blank
/// lines between) goes back to the opening line's indentation.
pub proof fn law_format_end_returns_to_opener(
    config: formatter::FormatterConfig,
    source: Seq<char>,
    i: int,
    j: int,
    p: Seq<char>,
)
    requires
        config.enabled,
        0 <= i < j < text::lines(source).len(),
        p == "IF "@ || p == "WHILE "@ || p == "FUNCTION "@,
        text::starts_with(text::trim(text::lines(source)[i]), p),
        forall|k: int| i < k < j ==> (#[trigger] text::trim(text::lines(source)[k])).len() == 0,
        text::starts_with(text::trim(text::lines(source)[j]), "END_"@),
    ensures
        ({
            let ls = text::lines(source);
            let out = text::lines(formatter::formatted(config, source));
            &&& out.len() == ls.len()
            &&& out[i].len() >= text::trim(ls[i]).len()
            &&& out[j].len() >= text::trim(ls[j]).len()
            &&& out[j].skip(out[j].len() - text::trim(ls[j]).len()) == text::trim(ls[j])
            &&& out[j].len() - text::trim(ls[j]).len() == out[i].len() - text::trim(ls[i]).len()
        }),
{
    let ls = text::lines(source);
    let ti = text::trim(ls[i]);
    let tj = text::trim(ls[j]);
    lemma_formatted_output_lines(config, source);
    lemma_formatted_lines_at(config, ls, 0, i);
    lemma_formatted_lines_at(config, ls, 0, j);
    reveal_strlit("IF ");
    reveal_strlit("WHILE ");
    reveal_strlit("FUNCTION ");
    reveal_strlit("END_");
    reveal_strlit("ELSE");
    reveal_strlit("ELSE ");
    assert(ti.take(p.len() as int)[0] == ti[0]);
    assert(ti[0] != 'E');
    assert(!text::starts_with(ti, "END_"@)) by {
        if text::starts_with(ti, "END_"@) {
            assert(ti.take(4)[0] == ti[0]);
        }
    }
    assert(ti != "ELSE"@);
    assert(!text::starts_with(ti, "ELSE "@)) by {
        if text::starts_with(ti, "ELSE "@) {
            assert(ti.take(5)[0] == ti[0]);
        }
    }
    assert(!formatter::closes_block(ti));
    assert(formatter::opens_block(ti));
    assert(tj.len() >= 4);
    assert(formatter::closes_block(tj));
    let li = level_after(ls, 0, i);
    assert(level_after(ls, 0, i + 1) == li + 1);
    lemma_level_after_blank(ls, i + 1, j, li + 1);
    let wi = formatter::indentation(config, li);
    assert((wi + tj).skip(wi.len() as int) =~= tj);
}

/// Blank lines keep the depth.
proof fn lemma_level_after_blank(ls: Seq<Seq<char>>, a: int, k: int, lv: nat)
    requires
        1 <= a <= k <= ls.len(),
        level_after(ls, 0, a) == lv,
        forall|m: int| a <= m < k ==> (#[trigger] text::trim(ls[m])).len() == 0,
    ensures
        level_after(ls, 0, k) == lv,
    decreases k - a,
{
    if k > a {
        lemma_level_after_blank(ls, a, k - 1, lv);
        assert(text::trim(ls[k - 1]).len() == 0);
    }
}

} // verus!
