//! Decimal and hexadecimal numerals: reading them the way Rust's `FromStr`
//! and `from_str_radix` do, and writing them the way `to_string` and
//! `{:02x}` do.
use vstd::prelude::*;

verus! {

pub open spec fn is_digit(c: char) -> bool {
    '0' <= c && c <= '9'
}

pub open spec fn digit_val(c: char) -> nat {
    (c as u32 - '0' as u32) as nat
}

pub open spec fn all_digits(s: Seq<char>) -> bool {
    forall|i: int| 0 <= i < s.len() ==> is_digit(#[trigger] s[i])
}

/// The value of a numeral written in decimal digits.
pub open spec fn digits_value(s: Seq<char>) -> nat
    decreases s.len(),
{
    if s.len() == 0 {
        0
    } else {
        digits_value(s.drop_last()) * 10 + digit_val(s.last())
    }
}

/// The digits after an optional leading `+`.
pub open spec fn unsigned_body(s: Seq<char>) -> Seq<char> {
    if s.len() > 0 && s[0] == '+' {
        s.drop_first()
    } else {
        s
    }
}

/// `s.parse()` for an unsigned integer type whose largest value is `max`.
pub open spec fn parse_unsigned(s: Seq<char>, max: nat) -> Option<nat> {
    let b = unsigned_body(s);
    if b.len() > 0 && all_digits(b) && digits_value(b) <= max {
        Some(digits_value(b))
    } else {
        None
    }
}

pub proof fn lemma_digits_value_prefix(s: Seq<char>, i: int)
    requires
        0 <= i <= s.len(),
    ensures
        digits_value(s.take(i)) <= digits_value(s),
    decreases s.len() - i,
{
    if i < s.len() {
        lemma_digits_value_prefix(s.drop_last(), i);
        assert(s.drop_last().take(i) =~= s.take(i));
    } else {
        assert(s.take(i) =~= s);
    }
}

proof fn lemma_digits_value_step(s: Seq<char>, i: int)
    requires
        0 <= i < s.len(),
    ensures
        digits_value(s.take(i + 1)) == digits_value(s.take(i)) * 10 + digit_val(s[i]),
{
    assert(s.take(i + 1).drop_last() =~= s.take(i));
}

/// Reads decimal digits after an optional `+` (unsigned `FromStr`), for
/// values up to `max`.
pub fn parse_unsigned_chars(s: &[char], max: u64) -> (r: Option<u64>)
    ensures
        match parse_unsigned(s@, max as nat) {
            Some(v) => r == Some(v as u64),
            None => r is None,
        },
{
    let mut start: usize = 0;
    if s.len() > 0 && s[0] == '+' {
        start = 1;
    }
    let ghost b = unsigned_body(s@);
    assert(b =~= s@.skip(start as int));
    if start == s.len() {
        return None;
    }
    let mut i = start;
    while i < s.len()
        invariant
            start <= i <= s@.len(),
            s@.len() == s.len(),
            b == s@.skip(start as int),
            b == unsigned_body(s@),
            forall|k: int| start <= k < i ==> is_digit(#[trigger] s@[k]),
        decreases s@.len() - i,
    {
        if !('0' <= s[i] && s[i] <= '9') {
            assert(!is_digit(b[i - start]));
            assert(!all_digits(b));
            return None;
        }
        i = i + 1;
    }
    assert(all_digits(b)) by {
        assert forall|k: int| 0 <= k < b.len() implies is_digit(#[trigger] b[k]) by {
            assert(b[k] == s@[start + k]);
        }
    }
    let mut v: u128 = 0;
    let mut j = start;
    assert(b.take(0) =~= Seq::<char>::empty());
    while j < s.len()
        invariant
            start <= j <= s@.len(),
            s@.len() == s.len(),
            b == s@.skip(start as int),
            b == unsigned_body(s@),
            all_digits(b),
            v as nat == digits_value(b.take(j - start)),
            v <= max,
        decreases s@.len() - j,
    {
        proof {
            lemma_digits_value_step(b, j - start);
            assert(b[j - start] == s@[j as int]);
        }
        let d = (s[j] as u32 - '0' as u32) as u128;
        assert(v * 10 + d <= 0xffff_ffff_ffff_ffffu128 * 10 + 9) by (nonlinear_arith)
            requires
                v <= 0xffff_ffff_ffff_ffffu128,
                d <= 9,
        ;
        v = v * 10 + d;
        j = j + 1;
        assert(v as nat == digits_value(b.take(j - start)));
        if v > max as u128 {
            proof {
                lemma_digits_value_prefix(b, j - start);
            }
            assert(digits_value(b) > max);
            return None;
        }
    }
    assert(b.take(b.len() as int) =~= b);
    Some(v as u64)
}

/// `s.parse::<i32>()`: an optional sign, then decimal digits.
pub open spec fn parse_i32(s: Seq<char>) -> Option<int> {
    if s.len() > 0 && s[0] == '-' {
        let b = s.drop_first();
        if b.len() > 0 && all_digits(b) && digits_value(b) <= 0x8000_0000 {
            Some(-digits_value(b))
        } else {
            None
        }
    } else {
        match parse_unsigned(s, 0x7fff_ffff) {
            Some(v) => Some(v as int),
            None => None,
        }
    }
}

pub fn parse_i32_chars(s: &[char]) -> (r: Option<i32>)
    ensures
        match parse_i32(s@) {
            Some(v) => r == Some(v as i32),
            None => r is None,
        },
{
    if s.len() > 0 && s[0] == '-' {
        let rest = &s[1..s.len()];
        assert(rest@ =~= s@.drop_first());
        if rest.len() > 0 && rest[0] == '+' {
            return None;
        }
        assert(unsigned_body(rest@) == rest@);
        match parse_unsigned_chars(rest, 0x8000_0000) {
            Some(v) => Some((0 - v as i64) as i32),
            None => None,
        }
    } else {
        match parse_unsigned_chars(s, 0x7fff_ffff) {
            Some(v) => Some(v as i32),
            None => None,
        }
    }
}

pub open spec fn is_hex_digit(c: char) -> bool {
    ||| ('0' <= c && c <= '9')
    ||| ('a' <= c && c <= 'f')
    ||| ('A' <= c && c <= 'F')
}

pub open spec fn hex_val(c: char) -> nat {
    if '0' <= c && c <= '9' {
        (c as u32 - '0' as u32) as nat
    } else if 'a' <= c && c <= 'f' {
        (c as u32 - 'a' as u32 + 10) as nat
    } else {
        (c as u32 - 'A' as u32 + 10) as nat
    }
}

pub open spec fn all_hex(s: Seq<char>) -> bool {
    forall|i: int| 0 <= i < s.len() ==> is_hex_digit(#[trigger] s[i])
}

/// The value of a numeral written in hexadecimal digits.
pub open spec fn hex_value(s: Seq<char>) -> nat
    decreases s.len(),
{
    if s.len() == 0 {
        0
    } else {
        hex_value(s.drop_last()) * 16 + hex_val(s.last())
    }
}

/// `from_str_radix(s, 16)` for an unsigned type whose largest value is `max`.
pub open spec fn parse_hex(s: Seq<char>, max: nat) -> Option<nat> {
    let b = unsigned_body(s);
    if b.len() > 0 && all_hex(b) && hex_value(b) <= max {
        Some(hex_value(b))
    } else {
        None
    }
}

pub fn hex_digit_value(c: char) -> (r: Option<u8>)
    ensures
        match r {
            Some(v) => is_hex_digit(c) && v as nat == hex_val(c),
            None => !is_hex_digit(c),
        },
{
    if '0' <= c && c <= '9' {
        Some((c as u32 - '0' as u32) as u8)
    } else if 'a' <= c && c <= 'f' {
        Some((c as u32 - 'a' as u32 + 10) as u8)
    } else if 'A' <= c && c <= 'F' {
        Some((c as u32 - 'A' as u32 + 10) as u8)
    } else {
        None
    }
}

pub proof fn lemma_hex_value_prefix(s: Seq<char>, i: int)
    requires
        0 <= i <= s.len(),
    ensures
        hex_value(s.take(i)) <= hex_value(s),
    decreases s.len() - i,
{
    if i < s.len() {
        lemma_hex_value_prefix(s.drop_last(), i);
        assert(s.drop_last().take(i) =~= s.take(i));
    } else {
        assert(s.take(i) =~= s);
    }
}

/// Reads hexadecimal digits after an optional `+` (`from_str_radix(s, 16)`),
/// for values up to `max`.
pub fn parse_hex_chars(s: &[char], max: u64) -> (r: Option<u64>)
    ensures
        match parse_hex(s@, max as nat) {
            Some(v) => r == Some(v as u64),
            None => r is None,
        },
{
    let mut start: usize = 0;
    if s.len() > 0 && s[0] == '+' {
        start = 1;
    }
    let ghost b = unsigned_body(s@);
    assert(b =~= s@.skip(start as int));
    if start == s.len() {
        return None;
    }
    let mut v: u128 = 0;
    let mut j = start;
    assert(b.take(0) =~= Seq::<char>::empty());
    while j < s.len()
        invariant
            start <= j <= s@.len(),
            s@.len() == s.len(),
            b == s@.skip(start as int),
            b == unsigned_body(s@),
            start < s@.len(),
            forall|k: int| 0 <= k < j - start ==> is_hex_digit(#[trigger] b[k]),
            v as nat == hex_value(b.take(j - start)),
            v <= max,
        decreases s@.len() - j,
    {
        assert(b[j - start] == s@[j as int]);
        let d = match hex_digit_value(s[j]) {
            Some(d) => d as u128,
            None => {
                return None;
            },
        };
        proof {
            assert(b.take(j - start + 1).drop_last() =~= b.take(j - start));
        }
        assert(v * 16 + d <= 0xffff_ffff_ffff_ffffu128 * 16 + 15) by (nonlinear_arith)
            requires
                v <= 0xffff_ffff_ffff_ffffu128,
                d <= 15,
        ;
        v = v * 16 + d;
        j = j + 1;
        assert(v as nat == hex_value(b.take(j - start)));
        if v > max as u128 {
            proof {
                lemma_hex_value_prefix(b, j - start);
            }
            return None;
        }
    }
    assert(b.take(b.len() as int) =~= b);
    Some(v as u64)
}

/// The lowercase hexadecimal digit for `v < 16`.
pub open spec fn hex_char(v: nat) -> char {
    if v < 10 {
        ((v + 48) as u8) as char
    } else {
        ((v + 87) as u8) as char
    }
}

pub fn hex_char_of(v: u8) -> (c: char)
    requires
        v < 16,
    ensures
        c == hex_char(v as nat),
{
    if v < 10 {
        (v + 48) as char
    } else {
        (v + 87) as char
    }
}

/// The two lowercase hex digits of a byte (`format!("{:02x}", b)`).
pub open spec fn byte_hex(b: u8) -> Seq<char> {
    seq![hex_char((b / 16) as nat), hex_char((b % 16) as nat)]
}

pub fn byte_hex_chars(b: u8) -> (r: Vec<char>)
    ensures
        r@ == byte_hex(b),
{
    let mut r: Vec<char> = Vec::new();
    r.push(hex_char_of(b / 16));
    r.push(hex_char_of(b % 16));
    assert(r@ =~= byte_hex(b));
    r
}

/// The decimal numeral of `n` (`n.to_string()`).
pub open spec fn decimal(n: nat) -> Seq<char>
    decreases n,
{
    if n < 10 {
        seq![((n + 48) as u8) as char]
    } else {
        decimal(n / 10).push((((n % 10) + 48) as u8) as char)
    }
}

pub fn decimal_chars(n: u128) -> (r: Vec<char>)
    ensures
        r@ == decimal(n as nat),
    decreases n,
{
    if n < 10 {
        let mut r: Vec<char> = Vec::new();
        r.push(((n as u8) + 48) as char);
        assert(r@ =~= decimal(n as nat));
        r
    } else {
        let mut r = decimal_chars(n / 10);
        r.push((((n % 10) as u8) + 48) as char);
        r
    }
}

} // verus!
