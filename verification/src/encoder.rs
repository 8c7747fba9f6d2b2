//! Hexadecimal encodings used by the compiler's output: the textual hex
//! tokens it produces and the bytes they stand for.
use vstd::prelude::*;

use crate::errors::CompilerError;
use crate::numbers::{self, byte_hex_chars, hex_char_of, parse_hex_chars};
use crate::text::{self, chars_of, prefix_eq, string_of, to_vec};

verus! {

/// The byte a hex token stands for: `u8::from_str_radix(s, 16)`, or 0 when
/// that fails.
pub open spec fn hex_byte(s: Seq<char>) -> u8 {
    match numbers::parse_hex(s, 255) {
        Some(v) => v as u8,
        None => 0,
    }
}

/// `hex_encode`: the little-endian bytes of `v`, each as two lowercase hex digits.
pub open spec fn hex_encode_spec(v: u16) -> Seq<char> {
    numbers::byte_hex((v % 256) as u8) + numbers::byte_hex((v / 256) as u8)
}

/// The lowercase hex digits of `n`, without leading zeros.
pub open spec fn hex_digits(n: nat) -> Seq<char>
    decreases n,
{
    if n < 16 {
        seq![numbers::hex_char(n)]
    } else {
        hex_digits(n / 16).push(numbers::hex_char(n % 16))
    }
}

pub open spec fn zeros(k: nat) -> Seq<char> {
    Seq::new(k, |i: int| '0')
}

/// `dec_to_hex`: the lowercase hex digits of `n`, zero-padded to at least four.
pub open spec fn dec_to_hex_spec(n: nat) -> Seq<char> {
    let d = hex_digits(n);
    if d.len() < 4 {
        zeros((4 - d.len()) as nat) + d
    } else {
        d
    }
}

/// The bytes one of the compiler's own hex tokens stands for (hex digits,
/// one byte each, so characters and bytes agree): a token longer than two
/// characters gives the bytes of its first two pairs of digits, a shorter
/// one a single byte. Strings from elsewhere are read by `string_bytes`.
pub open spec fn token_bytes(t: Seq<char>) -> Seq<u8> {
    if t.len() > 2 {
        seq![hex_byte(t.subrange(0, 2)), hex_byte(t.subrange(2, 4))]
    } else {
        seq![hex_byte(t)]
    }
}

/// The bytes a list of hex tokens stands for, in order.
pub open spec fn tokens_bytes(ts: Seq<Seq<char>>) -> Seq<u8>
    decreases ts.len(),
{
    if ts.len() == 0 {
        seq![]
    } else {
        tokens_bytes(ts.drop_last()) + token_bytes(ts.last())
    }
}

/// No token has exactly three characters (such a token has no second byte).
pub open spec fn tokens_well_sized(ts: Seq<Seq<char>>) -> bool {
    forall|i: int| 0 <= i < ts.len() ==> (#[trigger] ts[i]).len() != 3
}

pub proof fn lemma_tokens_bytes_concat(a: Seq<Seq<char>>, b: Seq<Seq<char>>)
    ensures
        tokens_bytes(a + b) == tokens_bytes(a) + tokens_bytes(b),
    decreases b.len(),
{
    if b.len() == 0 {
        assert(a + b =~= a);
        assert(tokens_bytes(a) + seq![] =~= tokens_bytes(a));
    } else {
        assert((a + b).drop_last() =~= a + b.drop_last());
        assert((a + b).last() == b.last());
        lemma_tokens_bytes_concat(a, b.drop_last());
        assert(tokens_bytes(a) + tokens_bytes(b.drop_last()) + token_bytes(b.last()) =~= tokens_bytes(a) + (tokens_bytes(b.drop_last()) + token_bytes(b.last())));
    }
}

pub proof fn lemma_hex_char_val(n: nat)
    requires
        n < 16,
    ensures
        numbers::is_hex_digit(numbers::hex_char(n)),
        numbers::hex_val(numbers::hex_char(n)) == n,
        numbers::hex_char(n) != '+',
{
}

/// A byte written as two hex digits reads back as that byte.
pub proof fn lemma_byte_hex_roundtrip(b: u8)
    ensures
        hex_byte(numbers::byte_hex(b)) == b,
        numbers::byte_hex(b).len() == 2,
{
    let s = numbers::byte_hex(b);
    lemma_hex_char_val((b / 16) as nat);
    lemma_hex_char_val((b % 16) as nat);
    assert(numbers::unsigned_body(s) == s);
    assert(s.drop_last() =~= seq![s[0]]);
    assert(seq![s[0]].drop_last() =~= Seq::<char>::empty());
    assert(numbers::hex_value(s) == (b / 16) as nat * 16 + (b % 16) as nat) by {
        reveal_with_fuel(numbers::hex_value, 3);
    }
    assert(numbers::all_hex(s));
}

/// The bytes of a `hex_encode` token are the little-endian bytes of the value.
pub proof fn lemma_hex_encode_bytes(v: u16)
    ensures
        token_bytes(hex_encode_spec(v)) == seq![(v % 256) as u8, (v / 256) as u8],
        hex_encode_spec(v).len() == 4,
{
    let s = hex_encode_spec(v);
    lemma_byte_hex_roundtrip((v % 256) as u8);
    lemma_byte_hex_roundtrip((v / 256) as u8);
    assert(s.subrange(0, 2) =~= numbers::byte_hex((v % 256) as u8));
    assert(s.subrange(2, 4) =~= numbers::byte_hex((v / 256) as u8));
}

pub proof fn lemma_hex_digits_len(n: nat)
    ensures
        1 <= hex_digits(n).len(),
        n < 16 ==> hex_digits(n).len() == 1,
        n < 256 ==> hex_digits(n).len() <= 2,
        n < 4096 ==> hex_digits(n).len() <= 3,
        n < 65536 ==> hex_digits(n).len() <= 4,
    decreases n,
{
    if n >= 16 {
        lemma_hex_digits_len(n / 16);
    }
}

/// `hex_encode`.
pub fn hex_encode_chars(value: u16) -> (r: Vec<char>)
    ensures
        r@ == hex_encode_spec(value),
{
    let lo = (value % 256) as u8;
    let hi = (value / 256) as u8;
    let mut r = byte_hex_chars(lo);
    let h = byte_hex_chars(hi);
    r.push(h[0]);
    r.push(h[1]);
    assert(r@ =~= hex_encode_spec(value));
    r
}

/// The four lowercase hex digits of the little-endian bytes of `value`.
pub fn hex_encode(value: u16) -> (r: String)
    ensures
        r@ == hex_encode_spec(value),
{
    let v = hex_encode_chars(value);
    string_of(v.as_slice())
}

pub fn hex_digits_chars(n: usize) -> (r: Vec<char>)
    ensures
        r@ == hex_digits(n as nat),
    decreases n,
{
    if n < 16 {
        let mut r: Vec<char> = Vec::new();
        r.push(hex_char_of(n as u8));
        r
    } else {
        let mut r = hex_digits_chars(n / 16);
        r.push(hex_char_of((n % 16) as u8));
        r
    }
}

/// `dec_to_hex`.
pub fn dec_to_hex_chars(value: usize) -> (r: Vec<char>)
    ensures
        r@ == dec_to_hex_spec(value as nat),
{
    let d = hex_digits_chars(value);
    if d.len() < 4 {
        let mut r: Vec<char> = Vec::new();
        let pad = 4 - d.len();
        let mut i: usize = 0;
        while i < pad
            invariant
                i <= pad,
                r@ == zeros(i as nat),
            decreases pad - i,
        {
            r.push('0');
            assert(r@ =~= zeros((i + 1) as nat));
            i = i + 1;
        }
        let mut j: usize = 0;
        while j < d.len()
            invariant
                j <= d@.len(),
                r@ == zeros(pad as nat) + d@.take(j as int),
            decreases d@.len() - j,
        {
            r.push(d[j]);
            assert(zeros(pad as nat) + d@.take(j + 1) =~= (zeros(pad as nat) + d@.take(
                j as int,
            )).push(d@[j as int]));
            j = j + 1;
        }
        assert(d@.take(d@.len() as int) =~= d@);
        r
    } else {
        d
    }
}

/// The lowercase hex digits of `value`, zero-padded to at least four digits.
pub fn dec_to_hex(value: usize) -> (r: String)
    ensures
        r@ == dec_to_hex_spec(value as nat),
{
    let v = dec_to_hex_chars(value);
    string_of(v.as_slice())
}

/// `swap_hex`: the second pair of characters before the first, when there are four.
pub open spec fn swap_hex_spec(s: Seq<char>) -> Seq<char> {
    if s.len() >= 4 {
        s.subrange(2, 4) + s.subrange(0, 2)
    } else {
        s
    }
}

pub fn swap_hex_chars(s: &[char]) -> (r: Vec<char>)
    ensures
        r@ == swap_hex_spec(s@),
{
    if s.len() >= 4 {
        let mut r: Vec<char> = Vec::new();
        r.push(s[2]);
        r.push(s[3]);
        r.push(s[0]);
        r.push(s[1]);
        assert(r@ =~= swap_hex_spec(s@));
        r
    } else {
        to_vec(s)
    }
}

pub fn swap_hex(hex_str: &str) -> (r: String)
    ensures
        r@ == swap_hex_spec(hex_str@),
{
    let s = chars_of(hex_str);
    let r = swap_hex_chars(s.as_slice());
    string_of(r.as_slice())
}

/// `s` without every leading repetition of `p` (`trim_start_matches`).
pub open spec fn strip_all_prefix(s: Seq<char>, p: Seq<char>) -> Seq<char>
    decreases s.len(),
{
    if p.len() > 0 && text::starts_with(s, p) {
        strip_all_prefix(s.skip(p.len() as int), p)
    } else {
        s
    }
}

pub open spec fn ascii_lower(c: char) -> char {
    if 'A' <= c && c <= 'Z' {
        ((c as u32 + 32) as u8) as char
    } else {
        c
    }
}

pub open spec fn ascii_upper(c: char) -> char {
    if 'a' <= c && c <= 'z' {
        ((c as u32 - 32) as u8) as char
    } else {
        c
    }
}

pub open spec fn lower(s: Seq<char>) -> Seq<char> {
    s.map_values(|c: char| ascii_lower(c))
}

pub open spec fn upper(s: Seq<char>) -> Seq<char> {
    s.map_values(|c: char| ascii_upper(c))
}

pub fn ascii_lower_char(c: char) -> (r: char)
    ensures
        r == ascii_lower(c),
{
    if 'A' <= c && c <= 'Z' {
        ((c as u8) + 32) as char
    } else {
        c
    }
}

pub fn ascii_upper_char(c: char) -> (r: char)
    ensures
        r == ascii_upper(c),
{
    if 'a' <= c && c <= 'z' {
        ((c as u8) - 32) as char
    } else {
        c
    }
}

pub fn lower_chars(s: &[char]) -> (r: Vec<char>)
    ensures
        r@ == lower(s@),
{
    let mut r: Vec<char> = Vec::new();
    let mut i: usize = 0;
    while i < s.len()
        invariant
            i <= s@.len(),
            r@ == lower(s@.take(i as int)),
        decreases s@.len() - i,
    {
        r.push(ascii_lower_char(s[i]));
        assert(lower(s@.take(i + 1)) =~= lower(s@.take(i as int)).push(ascii_lower(s@[i as int])));
        i = i + 1;
    }
    assert(s@.take(s@.len() as int) =~= s@);
    r
}

pub fn upper_chars(s: &[char]) -> (r: Vec<char>)
    ensures
        r@ == upper(s@),
{
    let mut r: Vec<char> = Vec::new();
    let mut i: usize = 0;
    while i < s.len()
        invariant
            i <= s@.len(),
            r@ == upper(s@.take(i as int)),
        decreases s@.len() - i,
    {
        r.push(ascii_upper_char(s[i]));
        assert(upper(s@.take(i + 1)) =~= upper(s@.take(i as int)).push(ascii_upper(s@[i as int])));
        i = i + 1;
    }
    assert(s@.take(s@.len() as int) =~= s@);
    r
}

pub fn strip_all_prefix_chars<'a>(s: &'a [char], p: &[char]) -> (r: &'a [char])
    ensures
        r@ == strip_all_prefix(s@, p@),
{
    if p.len() == 0 {
        return s;
    }
    let mut i: usize = 0;
    assert(s@.skip(0) =~= s@);
    while i <= s.len() && prefix_eq(s, i, p)
        invariant
            i <= s@.len(),
            s@.len() == s.len(),
            p@.len() > 0,
            strip_all_prefix(s@, p@) == strip_all_prefix(s@.skip(i as int), p@),
        decreases s@.len() - i,
    {
        assert(s@.skip(i as int).take(p@.len() as int) =~= s@.subrange(i as int, i + p@.len()));
        assert(s@.skip(i as int).skip(p@.len() as int) =~= s@.skip(i + p@.len()));
        i = i + p.len();
    }
    proof {
        if text::starts_with(s@.skip(i as int), p@) {
            assert(s@.skip(i as int).take(p@.len() as int) =~= s@.subrange(i as int, i + p@.len()));
        }
        assert(s@.skip(i as int) =~= s@.subrange(i as int, s@.len() as int));
    }
    &s[i..s.len()]
}

/// `format_hex`: every leading `0x`, then every leading `0X`, removed, and
/// ASCII letters lowered.
pub open spec fn format_hex_spec(s: Seq<char>) -> Seq<char> {
    lower(strip_all_prefix(strip_all_prefix(s, "0x"@), "0X"@))
}

pub fn format_hex_chars(s: &[char]) -> (r: Vec<char>)
    ensures
        r@ == format_hex_spec(s@),
{
    let p1 = chars_of("0x");
    let p2 = chars_of("0X");
    let a = strip_all_prefix_chars(s, p1.as_slice());
    let b = strip_all_prefix_chars(a, p2.as_slice());
    lower_chars(b)
}

pub fn format_hex(hex_str: &str) -> (r: String)
    ensures
        r@ == format_hex_spec(hex_str@),
{
    let s = chars_of(hex_str);
    let r = format_hex_chars(s.as_slice());
    string_of(r.as_slice())
}

/// `build_delay_bytes`: for each started block of 255, the tokens `00`, then
/// `FF` for a full block or the two hex digits of the rest.
pub open spec fn delay_tokens(delay: nat) -> Seq<Seq<char>>
    decreases delay,
{
    if delay == 0 {
        seq![]
    } else if delay > 255 {
        seq!["00"@, "FF"@] + delay_tokens((delay - 255) as nat)
    } else {
        seq!["00"@, numbers::byte_hex(delay as u8)]
    }
}

pub fn delay_tokens_chars(delay: u32) -> (r: Vec<Vec<char>>)
    ensures
        text::view_all(r@) == delay_tokens(delay as nat),
{
    let mut result: Vec<Vec<char>> = Vec::new();
    let mut d = delay;
    assert(text::view_all(result@) + delay_tokens(d as nat) =~= delay_tokens(delay as nat));
    while d > 0
        invariant
            text::view_all(result@) + delay_tokens(d as nat) == delay_tokens(delay as nat),
        decreases d,
    {
        let ghost before = text::view_all(result@);
        let zz = chars_of("00");
        proof {
            text::lemma_view_all_push(result@, zz);
        }
        result.push(zz);
        if d > 255 {
            let ff = chars_of("FF");
            proof {
                text::lemma_view_all_push(result@, ff);
            }
            result.push(ff);
            assert(text::view_all(result@) + delay_tokens((d - 255) as nat) =~= before + delay_tokens(
                d as nat,
            ));
            d = d - 255;
        } else {
            let b = byte_hex_chars(d as u8);
            proof {
                text::lemma_view_all_push(result@, b);
            }
            result.push(b);
            assert(text::view_all(result@) + delay_tokens(0) =~= before + delay_tokens(d as nat));
            d = 0;
        }
    }
    assert(text::view_all(result@) + delay_tokens(0) =~= text::view_all(result@));
    result
}

/// Delay tokens for `delay` milliseconds.
pub fn build_delay_bytes(delay: u32) -> (r: Vec<String>)
    ensures
        r@.map_values(|x: String| x@) == delay_tokens(delay as nat),
{
    let toks = delay_tokens_chars(delay);
    strings_of(&toks)
}

pub fn strings_of(v: &Vec<Vec<char>>) -> (r: Vec<String>)
    ensures
        r@.map_values(|x: String| x@) == text::view_all(v@),
{
    let mut r: Vec<String> = Vec::new();
    let mut i: usize = 0;
    while i < v.len()
        invariant
            i <= v@.len(),
            r@.len() == i,
            forall|k: int| 0 <= k < i ==> (#[trigger] r@[k])@ == v@[k]@,
        decreases v@.len() - i,
    {
        let s = string_of(v[i].as_slice());
        r.push(s);
        i = i + 1;
    }
    assert(r@.map_values(|x: String| x@) =~= text::view_all(v@));
    r
}

pub fn chars_of_all(v: &Vec<String>) -> (r: Vec<Vec<char>>)
    ensures
        text::view_all(r@) == v@.map_values(|x: String| x@),
{
    let mut r: Vec<Vec<char>> = Vec::new();
    let mut i: usize = 0;
    while i < v.len()
        invariant
            i <= v@.len(),
            r@.len() == i,
            forall|k: int| 0 <= k < i ==> (#[trigger] r@[k])@ == v@[k]@,
        decreases v@.len() - i,
    {
        let s = chars_of(v[i].as_str());
        r.push(s);
        i = i + 1;
    }
    assert(text::view_all(r@) =~= v@.map_values(|x: String| x@));
    r
}

/// `u8::from_str_radix(s, 16)`, or 0 when that fails.
pub fn parse_hex_byte_chars(s: &[char]) -> (r: u8)
    ensures
        r == hex_byte(s@),
{
    match parse_hex_chars(s, 255) {
        Some(v) => v as u8,
        None => 0,
    }
}

/// Appends the bytes of one hex token.
pub fn append_token(output: &mut Vec<u8>, t: &[char])
    requires
        t@.len() != 3,
    ensures
        final(output)@ == old(output)@ + token_bytes(t@),
{
    if t.len() > 2 {
        let a = parse_hex_byte_chars(&t[0..2]);
        let b = parse_hex_byte_chars(&t[2..4]);
        output.push(a);
        output.push(b);
    } else {
        let a = parse_hex_byte_chars(t);
        output.push(a);
    }
    assert(final(output)@ =~= old(output)@ + token_bytes(t@));
}

/// Appends the bytes of each hex token, in order.
pub fn append_tokens(output: &mut Vec<u8>, hex_array: &Vec<Vec<char>>)
    requires
        tokens_well_sized(text::view_all(hex_array@)),
    ensures
        final(output)@ == old(output)@ + tokens_bytes(text::view_all(hex_array@)),
{
    let mut i: usize = 0;
    assert(text::view_all(hex_array@).take(0) =~= Seq::<Seq<char>>::empty());
    assert(old(output)@ + seq![] =~= old(output)@);
    while i < hex_array.len()
        invariant
            i <= hex_array@.len(),
            tokens_well_sized(text::view_all(hex_array@)),
            output@ == old(output)@ + tokens_bytes(text::view_all(hex_array@).take(i as int)),
        decreases hex_array@.len() - i,
    {
        assert(text::view_all(hex_array@)[i as int] == hex_array@[i as int]@);
        append_token(output, hex_array[i].as_slice());
        proof {
            let ts = text::view_all(hex_array@);
            assert(ts.take(i + 1).drop_last() =~= ts.take(i as int));
            assert(ts.take(i + 1).last() == ts[i as int]);
        }
        i = i + 1;
    }
    assert(text::view_all(hex_array@).take(hex_array@.len() as int) =~= text::view_all(hex_array@));
}

/// The characters of `s` that fit in its first `n` UTF-8 bytes, whole
/// characters only.
pub open spec fn byte_take(s: Seq<char>, n: nat) -> Seq<char>
    decreases s.len(),
{
    if s.len() == 0 || text::utf8_width(s[0]) > n {
        Seq::empty()
    } else {
        seq![s[0]] + byte_take(s.drop_first(), (n - text::utf8_width(s[0])) as nat)
    }
}

/// Whether byte `n` of `s` is a character boundary, so that `&s[..n]` is
/// the string `byte_take(s, n)`.
pub open spec fn cut_ok(s: Seq<char>, n: nat) -> bool {
    text::utf8_len(byte_take(s, n)) == n
}

/// Bytes 0..2 of `s`, as a string.
pub open spec fn first_pair(s: Seq<char>) -> Seq<char> {
    byte_take(s, 2)
}

/// Bytes 2..4 of `s`, as a string.
pub open spec fn second_pair(s: Seq<char>) -> Seq<char> {
    byte_take(s.skip(byte_take(s, 2).len() as int), 2)
}

/// Whether bytes 0..2 and 2..4 of `s` can be cut out of it.
pub open spec fn pairs_cut_at_boundaries(s: Seq<char>) -> bool {
    cut_ok(s, 2) && cut_ok(s.skip(byte_take(s, 2).len() as int), 2)
}

/// The bytes one hex string stands for in `append_hex_string_array`: a
/// string of more than two UTF-8 bytes gives its bytes 0..2 and 2..4 read as
/// hex, a shorter one itself read as hex.
pub open spec fn string_bytes(t: Seq<char>) -> Seq<u8> {
    if text::utf8_len(t) > 2 {
        seq![hex_byte(first_pair(t)), hex_byte(second_pair(t))]
    } else {
        seq![hex_byte(t)]
    }
}

/// Whether a hex string can be cut as `append_hex_string_array` cuts it.
pub open spec fn string_cut_ok(t: Seq<char>) -> bool {
    text::utf8_len(t) <= 2 || pairs_cut_at_boundaries(t)
}

/// The bytes a list of hex strings stands for, in order.
pub open spec fn strings_bytes(ts: Seq<Seq<char>>) -> Seq<u8>
    decreases ts.len(),
{
    if ts.len() == 0 {
        seq![]
    } else {
        strings_bytes(ts.drop_last()) + string_bytes(ts.last())
    }
}

/// Whether every hex string can be cut as `append_hex_string_array` cuts it.
pub open spec fn strings_cut_ok(ts: Seq<Seq<char>>) -> bool {
    forall|i: int| 0 <= i < ts.len() ==> string_cut_ok(#[trigger] ts[i])
}

/// The number of UTF-8 bytes of `c`.
pub fn utf8_width_of(c: char) -> (w: usize)
    ensures
        w == text::utf8_width(c),
{
    let u = c as u32;
    if u < 0x80 {
        1
    } else if u < 0x800 {
        2
    } else if u < 0x10000 {
        3
    } else {
        4
    }
}

/// How many characters of `s` fit in its first `n` bytes.
pub fn byte_take_len(s: &[char], n: usize) -> (k: usize)
    ensures
        k <= s@.len(),
        s@.take(k as int) == byte_take(s@, n as nat),
{
    let mut i: usize = 0;
    let mut left: usize = n;
    assert(s@.take(0) + byte_take(s@.skip(0), n as nat) =~= byte_take(s@, n as nat)) by {
        assert(s@.skip(0) =~= s@);
    }
    while i < s.len()
        invariant
            i <= s@.len(),
            left <= n,
            byte_take(s@, n as nat) == s@.take(i as int) + byte_take(s@.skip(i as int), left as nat),
        decreases s@.len() - i,
    {
        let w = utf8_width_of(s[i]);
        assert(s@.skip(i as int)[0] == s@[i as int]);
        if w > left {
            assert(byte_take(s@.skip(i as int), left as nat) =~= Seq::<char>::empty());
            assert(s@.take(i as int) + Seq::<char>::empty() =~= s@.take(i as int));
            return i;
        }
        proof {
            let r = s@.skip(i as int);
            assert(r.drop_first() =~= s@.skip(i + 1));
            assert(s@.take(i + 1) =~= s@.take(i as int) + seq![s@[i as int]]);
            assert(s@.take(i as int) + (seq![s@[i as int]] + byte_take(s@.skip(i + 1), (left - w) as nat))
                =~= s@.take(i + 1) + byte_take(s@.skip(i + 1), (left - w) as nat));
        }
        left = left - w;
        i = i + 1;
    }
    assert(s@.skip(i as int) =~= Seq::<char>::empty());
    assert(byte_take(s@.skip(i as int), left as nat) =~= Seq::<char>::empty());
    assert(s@.take(i as int) + Seq::<char>::empty() =~= s@.take(i as int));
    i
}

/// Whether the hex string can be cut as `append_hex_string_array` cuts it.
pub fn string_cut_ok_chars(t: &[char]) -> (r: bool)
    ensures
        r == string_cut_ok(t@),
{
    if !text::utf8_longer(t, 2) {
        return true;
    }
    let k1 = byte_take_len(t, 2);
    let rest = &t[k1..t.len()];
    assert(rest@ =~= t@.skip(k1 as int));
    let k2 = byte_take_len(rest, 2);
    assert(t@.subrange(0, k1 as int) =~= t@.take(k1 as int));
    assert(rest@.subrange(0, k2 as int) =~= rest@.take(k2 as int));
    let a = text::utf8_len_sat(&t[0..k1]);
    let b = text::utf8_len_sat(&rest[0..k2]);
    a == 2 && b == 2
}

/// Appends the bytes of each hex string, in order.
pub fn append_strings(output: &mut Vec<u8>, ts: &Vec<Vec<char>>)
    ensures
        final(output)@ == old(output)@ + strings_bytes(text::view_all(ts@)),
{
    let ghost tv = text::view_all(ts@);
    let mut i: usize = 0;
    assert(tv.take(0) =~= Seq::<Seq<char>>::empty());
    assert(old(output)@ + seq![] =~= old(output)@);
    while i < ts.len()
        invariant
            i <= ts@.len(),
            tv == text::view_all(ts@),
            tv.len() == ts@.len(),
            output@ == old(output)@ + strings_bytes(tv.take(i as int)),
        decreases ts@.len() - i,
    {
        assert(tv[i as int] == ts@[i as int]@);
        append_string(output, ts[i].as_slice());
        proof {
            assert(tv.take(i + 1).drop_last() =~= tv.take(i as int));
            assert(tv.take(i + 1).last() == tv[i as int]);
        }
        i = i + 1;
    }
    assert(tv.take(tv.len() as int) =~= tv);
}

/// The bytes of one hex string.
pub fn append_string(output: &mut Vec<u8>, t: &[char])
    ensures
        final(output)@ == old(output)@ + string_bytes(t@),
{
    if text::utf8_longer(t, 2) {
        let k1 = byte_take_len(t, 2);
        let rest = &t[k1..t.len()];
        assert(rest@ =~= t@.skip(k1 as int));
        let k2 = byte_take_len(rest, 2);
        let a = parse_hex_byte_chars(&t[0..k1]);
        assert(t@.subrange(0, k1 as int) =~= t@.take(k1 as int));
        let b = parse_hex_byte_chars(&rest[0..k2]);
        assert(rest@.subrange(0, k2 as int) =~= rest@.take(k2 as int));
        output.push(a);
        output.push(b);
    } else {
        let a = parse_hex_byte_chars(t);
        output.push(a);
    }
    assert(final(output)@ =~= old(output)@ + string_bytes(t@));
}

/// Appends the bytes that the hex strings stand for.
pub fn append_hex_string_array(output: &mut Vec<u8>, hex_array: Vec<String>) -> (r: Result<
    (),
    CompilerError,
>)
    requires
        forall|i: int| 0 <= i < hex_array@.len() ==> string_cut_ok(#[trigger] hex_array@[i]@),
    ensures
        r is Ok,
        final(output)@ == old(output)@ + strings_bytes(hex_array@.map_values(|x: String| x@)),
{
    let toks = chars_of_all(&hex_array);
    let ghost ts = hex_array@.map_values(|x: String| x@);
    assert(text::view_all(toks@) =~= ts);
    let mut i: usize = 0;
    assert(ts.take(0) =~= Seq::<Seq<char>>::empty());
    assert(old(output)@ + seq![] =~= old(output)@);
    while i < toks.len()
        invariant
            i <= toks@.len(),
            toks@.len() == ts.len(),
            text::view_all(toks@) == ts,
            output@ == old(output)@ + strings_bytes(ts.take(i as int)),
        decreases toks@.len() - i,
    {
        assert(text::view_all(toks@)[i as int] == toks@[i as int]@);
        append_string(output, toks[i].as_slice());
        proof {
            assert(ts.take(i + 1).drop_last() =~= ts.take(i as int));
            assert(ts.take(i + 1).last() == ts[i as int]);
        }
        i = i + 1;
    }
    assert(ts.take(ts.len() as int) =~= ts);
    Ok(())
}

/// `normalize_var_value`'s four-digit form, by the value's UTF-8 length:
/// the value itself (4 bytes), `00` or `000` before it (2 or 1 byte), its
/// first 4 bytes (more than 4), else the value padded with zeros to four
/// characters.
pub open spec fn normalize_str(v: Seq<char>) -> Seq<char> {
    let n = text::utf8_len(v);
    if n == 4 {
        v
    } else if n == 2 {
        "00"@ + v
    } else if n == 1 {
        "000"@ + v
    } else if n > 4 {
        byte_take(v, 4)
    } else if v.len() < 4 {
        v + zeros((4 - v.len()) as nat)
    } else {
        v
    }
}

/// Whether `normalize_var_value` can cut `v` and its four-digit form at the
/// byte positions it uses.
pub open spec fn normalize_cut_ok(v: Seq<char>) -> bool {
    &&& text::utf8_len(v) > 4 ==> cut_ok(v, 4)
    &&& pairs_cut_at_boundaries(normalize_str(v))
}

pub fn normalize_str_chars(v: &[char]) -> (r: Vec<char>)
    ensures
        r@ == normalize_str(v@),
{
    proof {
        reveal_strlit("00");
        reveal_strlit("000");
    }
    let n = text::utf8_len_sat(v);
    let mut r: Vec<char> = Vec::new();
    if n == 4 {
        r = to_vec(v);
    } else if n == 2 {
        r.push('0');
        r.push('0');
        let mut i: usize = 0;
        while i < v.len()
            invariant
                i <= v@.len(),
                r@ == "00"@ + v@.take(i as int),
            decreases v@.len() - i,
        {
            r.push(v[i]);
            assert(r@ =~= "00"@ + v@.take(i + 1));
            i = i + 1;
        }
        assert(v@.take(v@.len() as int) =~= v@);
    } else if n == 1 {
        r.push('0');
        r.push('0');
        r.push('0');
        let mut i: usize = 0;
        while i < v.len()
            invariant
                i <= v@.len(),
                r@ == "000"@ + v@.take(i as int),
            decreases v@.len() - i,
        {
            r.push(v[i]);
            assert(r@ =~= "000"@ + v@.take(i + 1));
            i = i + 1;
        }
        assert(v@.take(v@.len() as int) =~= v@);
    } else if n > 4 {
        let k = byte_take_len(v, 4);
        r = to_vec(&v[0..k]);
        assert(v@.subrange(0, k as int) =~= v@.take(k as int));
    } else if v.len() < 4 {
        r = to_vec(v);
        while r.len() < 4
            invariant
                v@.len() < 4,
                r@.len() <= 4,
                r@.len() >= v@.len(),
                r@ == v@ + zeros((r@.len() - v@.len()) as nat),
            decreases 4 - r@.len(),
        {
            r.push('0');
            assert(r@ =~= v@ + zeros((r@.len() - v@.len()) as nat));
        }
    } else {
        r = to_vec(v);
    }
    r
}

/// The two bytes of a variable's value after `normalize_var_value`'s padding:
/// bytes 0..2 and 2..4 of the four-digit form, each read as hex.
pub fn normalize_var_value(val: &str) -> (r: (u8, u8))
    requires
        normalize_cut_ok(val@),
    ensures
        r.0 == hex_byte(first_pair(normalize_str(val@))),
        r.1 == hex_byte(second_pair(normalize_str(val@))),
{
    let v = chars_of(val);
    let s = normalize_str_chars(v.as_slice());
    let k1 = byte_take_len(s.as_slice(), 2);
    let rest = &s.as_slice()[k1..s.len()];
    assert(rest@ =~= s@.skip(k1 as int));
    let k2 = byte_take_len(rest, 2);
    assert(s@.subrange(0, k1 as int) =~= s@.take(k1 as int));
    assert(rest@.subrange(0, k2 as int) =~= rest@.take(k2 as int));
    (parse_hex_byte_chars(&s.as_slice()[0..k1]), parse_hex_byte_chars(&rest[0..k2]))
}

/// `s` without its spaces.
pub open spec fn remove_spaces(s: Seq<char>) -> Seq<char> {
    s.filter(|c: char| c != ' ')
}

/// `hex_to_byte_array` on a space-free string: each complete two-byte piece
/// read as a hex byte, a piece that is not hex giving nothing. A character
/// of two UTF-8 bytes is such a piece (and not hex).
pub open spec fn pairs_bytes(s: Seq<char>) -> Seq<u8>
    decreases s.len(),
{
    if s.len() == 0 {
        seq![]
    } else if text::utf8_width(s[0]) != 1 {
        pairs_bytes(s.drop_first())
    } else if s.len() < 2 {
        seq![]
    } else {
        match numbers::parse_hex(s.subrange(0, 2), 255) {
            Some(v) => seq![v as u8] + pairs_bytes(s.skip(2)),
            None => pairs_bytes(s.skip(2)),
        }
    }
}

/// Whether reading `s` two bytes at a time never cuts a character (where
/// `hex_to_byte_array`'s slicing would panic).
pub open spec fn pairs_cut_ok(s: Seq<char>) -> bool
    decreases s.len(),
{
    if s.len() == 0 {
        true
    } else if text::utf8_width(s[0]) == 2 {
        pairs_cut_ok(s.drop_first())
    } else if text::utf8_width(s[0]) == 1 {
        s.len() == 1 || (text::utf8_width(s[1]) == 1 && pairs_cut_ok(s.skip(2)))
    } else {
        false
    }
}

pub fn remove_spaces_chars(s: &[char]) -> (r: Vec<char>)
    ensures
        r@ == remove_spaces(s@),
{
    let mut r: Vec<char> = Vec::new();
    let mut i: usize = 0;
    while i < s.len()
        invariant
            i <= s@.len(),
            r@ == remove_spaces(s@.take(i as int)),
        decreases s@.len() - i,
    {
        proof {
            assert(s@.take(i + 1).drop_last() =~= s@.take(i as int));
            reveal_with_fuel(Seq::<char>::filter, 1);
        }
        if s[i] != ' ' {
            r.push(s[i]);
        }
        i = i + 1;
    }
    assert(s@.take(s@.len() as int) =~= s@);
    r
}

pub fn pairs_bytes_chars(s: &[char]) -> (r: Vec<u8>)
    ensures
        r@ == pairs_bytes(s@),
{
    let mut r: Vec<u8> = Vec::new();
    let mut i: usize = 0;
    assert(s@.skip(0) =~= s@);
    assert(r@ + pairs_bytes(s@) =~= pairs_bytes(s@));
    while i < s.len()
        invariant
            i <= s@.len(),
            s@.len() == s.len(),
            pairs_bytes(s@) == r@ + pairs_bytes(s@.skip(i as int)),
        decreases s@.len() - i,
    {
        let ghost rest = s@.skip(i as int);
        assert(rest[0] == s@[i as int]);
        let w = utf8_width_of(s[i]);
        if w != 1 {
            assert(rest.drop_first() =~= s@.skip(i + 1));
            i = i + 1;
        } else if s.len() - i < 2 {
            assert(pairs_bytes(rest) =~= Seq::<u8>::empty());
            assert(r@ + seq![] =~= r@);
            return r;
        } else {
            assert(rest.subrange(0, 2) =~= s@.subrange(i as int, i + 2));
            assert(rest.skip(2) =~= s@.skip(i + 2));
            let ghost before = r@;
            match parse_hex_chars(&s[i..i + 2], 255) {
                Some(v) => {
                    r.push(v as u8);
                    assert(before + (seq![v as u8] + pairs_bytes(s@.skip(i + 2))) =~= r@
                        + pairs_bytes(s@.skip(i + 2)));
                },
                None => {},
            }
            i = i + 2;
        }
    }
    assert(s@.skip(i as int) =~= Seq::<char>::empty());
    assert(r@ + seq![] =~= r@);
    r
}

/// The bytes of the hex string, read two bytes at a time, spaces removed.
pub fn hex_to_byte_array(hex_string: &str) -> (r: Vec<u8>)
    requires
        pairs_cut_ok(remove_spaces(hex_string@)),
    ensures
        r@ == pairs_bytes(remove_spaces(hex_string@)),
{
    let s = chars_of(hex_string);
    let c = remove_spaces_chars(s.as_slice());
    pairs_bytes_chars(c.as_slice())
}

} // verus!
