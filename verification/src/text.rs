//! Character-level text primitives shared by the lexer, the preprocessor,
//! the compiler, the formatter and the linter.
//!
//! Text is handled as sequences of `char`. Each executable helper here is
//! tied to a spec function that says what it computes, in the terms used by
//! the rest of the crate.
use vstd::prelude::*;

verus! {

/// Unicode `White_Space`, as `char::is_whitespace` decides it.
pub open spec fn is_ws(c: char) -> bool {
    let u = c as u32;
    ||| u == 0x20
    ||| (0x09 <= u && u <= 0x0d)
    ||| u == 0x85
    ||| u == 0xa0
    ||| u == 0x1680
    ||| (0x2000 <= u && u <= 0x200a)
    ||| u == 0x2028
    ||| u == 0x2029
    ||| u == 0x202f
    ||| u == 0x205f
    ||| u == 0x3000
}

pub fn is_ws_char(c: char) -> (r: bool)
    ensures
        r == is_ws(c),
{
    let u = c as u32;
    u == 0x20 || (0x09 <= u && u <= 0x0d) || u == 0x85 || u == 0xa0 || u == 0x1680 || (0x2000
        <= u && u <= 0x200a) || u == 0x2028 || u == 0x2029 || u == 0x202f || u == 0x205f || u
        == 0x3000
}

pub open spec fn is_ascii_digit(c: char) -> bool {
    '0' <= c && c <= '9'
}

pub open spec fn is_ascii_alnum(c: char) -> bool {
    ||| ('0' <= c && c <= '9')
    ||| ('a' <= c && c <= 'z')
    ||| ('A' <= c && c <= 'Z')
}

/// `s` without its leading whitespace.
pub open spec fn trim_start(s: Seq<char>) -> Seq<char>
    decreases s.len(),
{
    if s.len() > 0 && is_ws(s[0]) {
        trim_start(s.drop_first())
    } else {
        s
    }
}

/// `s` without its trailing whitespace.
pub open spec fn trim_end(s: Seq<char>) -> Seq<char>
    decreases s.len(),
{
    if s.len() > 0 && is_ws(s.last()) {
        trim_end(s.drop_last())
    } else {
        s
    }
}

/// `s` without leading and trailing whitespace (`str::trim`).
pub open spec fn trim(s: Seq<char>) -> Seq<char> {
    trim_end(trim_start(s))
}

pub open spec fn all_ws(s: Seq<char>) -> bool {
    forall|i: int| 0 <= i < s.len() ==> is_ws(#[trigger] s[i])
}

pub proof fn lemma_trim_start_skip(s: Seq<char>, i: int)
    requires
        0 <= i <= s.len(),
        all_ws(s.take(i)),
    ensures
        trim_start(s) == trim_start(s.skip(i)),
    decreases i,
{
    if i > 0 {
        assert(is_ws(s.take(i)[0]));
        assert(s.drop_first() =~= s.skip(1));
        assert(all_ws(s.drop_first().take(i - 1))) by {
            assert forall|k: int| 0 <= k < i - 1 implies is_ws(#[trigger] s.drop_first().take(
                i - 1,
            )[k]) by {
                assert(s.take(i)[k + 1] == s.drop_first().take(i - 1)[k]);
            }
        }
        lemma_trim_start_skip(s.drop_first(), i - 1);
        assert(s.drop_first().skip(i - 1) =~= s.skip(i));
    } else {
        assert(s.skip(0) =~= s);
    }
}

pub proof fn lemma_trim_end_take(s: Seq<char>, j: int)
    requires
        0 <= j <= s.len(),
        all_ws(s.skip(j)),
    ensures
        trim_end(s) == trim_end(s.take(j)),
    decreases s.len() - j,
{
    if j < s.len() {
        assert(is_ws(s.skip(j)[s.len() - j - 1]));
        assert(s.drop_last() =~= s.take(s.len() - 1));
        assert(all_ws(s.drop_last().skip(j))) by {
            assert forall|k: int| 0 <= k < s.len() - 1 - j implies is_ws(
                #[trigger] s.drop_last().skip(j)[k],
            ) by {
                assert(s.skip(j)[k] == s.drop_last().skip(j)[k]);
            }
        }
        lemma_trim_end_take(s.drop_last(), j);
        assert(s.drop_last().take(j) =~= s.take(j));
    } else {
        assert(s.take(j) =~= s);
    }
}

pub proof fn lemma_trim_start_stops(s: Seq<char>)
    ensures
        trim_start(s).len() > 0 ==> !is_ws(trim_start(s)[0]),
        trim_start(s).len() <= s.len(),
        trim_start(s) =~= s.skip(s.len() - trim_start(s).len()),
        all_ws(s.take(s.len() - trim_start(s).len())),
    decreases s.len(),
{
    if s.len() > 0 && is_ws(s[0]) {
        lemma_trim_start_stops(s.drop_first());
        let t = trim_start(s.drop_first());
        assert(s.drop_first().skip(s.drop_first().len() - t.len()) =~= s.skip(s.len() - t.len()));
        assert forall|k: int| 0 <= k < s.len() - t.len() implies is_ws(
            #[trigger] s.take(s.len() - t.len())[k],
        ) by {
            if k > 0 {
                assert(s.drop_first().take(s.drop_first().len() - t.len())[k - 1] == s.take(
                    s.len() - t.len(),
                )[k]);
            }
        }
    } else {
        assert(s.skip(0) =~= s);
    }
}

pub proof fn lemma_trim_end_stops(s: Seq<char>)
    ensures
        trim_end(s).len() > 0 ==> !is_ws(trim_end(s).last()),
        trim_end(s).len() <= s.len(),
        trim_end(s) =~= s.take(trim_end(s).len() as int),
        all_ws(s.skip(trim_end(s).len() as int)),
    decreases s.len(),
{
    if s.len() > 0 && is_ws(s.last()) {
        lemma_trim_end_stops(s.drop_last());
        let t = trim_end(s.drop_last());
        assert(s.drop_last().take(t.len() as int) =~= s.take(t.len() as int));
        assert forall|k: int| 0 <= k < s.len() - t.len() implies is_ws(
            #[trigger] s.skip(t.len() as int)[k],
        ) by {
            if k < s.len() - 1 - t.len() {
                assert(s.drop_last().skip(t.len() as int)[k] == s.skip(t.len() as int)[k]);
            }
        }
    } else {
        assert(s.take(s.len() as int) =~= s);
    }
}

/// Index of the first character that is not whitespace (the length if none).
pub fn skip_ws_from(s: &[char], start: usize) -> (i: usize)
    requires
        start <= s@.len(),
    ensures
        start <= i <= s@.len(),
        forall|k: int| start <= k < i ==> is_ws(#[trigger] s@[k]),
        i < s@.len() ==> !is_ws(s@[i as int]),
{
    let mut i = start;
    while i < s.len() && is_ws_char(s[i])
        invariant
            start <= i <= s@.len(),
            forall|k: int| start <= k < i ==> is_ws(#[trigger] s@[k]),
        decreases s@.len() - i,
    {
        i = i + 1;
    }
    i
}

/// `str::trim_start` on characters.
pub fn trim_start_chars(s: &[char]) -> (r: &[char])
    ensures
        r@ == trim_start(s@),
{
    let i = skip_ws_from(s, 0);
    proof {
        assert(all_ws(s@.take(i as int)));
        lemma_trim_start_skip(s@, i as int);
        assert(s@.skip(i as int) =~= s@.subrange(i as int, s@.len() as int));
    }
    &s[i..s.len()]
}

/// `str::trim_end` on characters.
pub fn trim_end_chars(s: &[char]) -> (r: &[char])
    ensures
        r@ == trim_end(s@),
{
    let mut j = s.len();
    while j > 0 && is_ws_char(s[j - 1])
        invariant
            j <= s@.len(),
            all_ws(s@.skip(j as int)),
        decreases j,
    {
        assert(all_ws(s@.skip(j - 1))) by {
            assert forall|k: int| 0 <= k < s@.len() - (j - 1) implies is_ws(
                #[trigger] s@.skip(j - 1)[k],
            ) by {
                if k > 0 {
                    assert(s@.skip(j as int)[k - 1] == s@.skip(j - 1)[k]);
                }
            }
        }
        j = j - 1;
    }
    proof {
        lemma_trim_end_take(s@, j as int);
        assert(s@.take(j as int) =~= s@.subrange(0, j as int));
        if j > 0 {
            assert(s@.take(j as int).last() == s@[j - 1]);
            assert(s@.take(j as int).drop_last() =~= s@.take(j - 1));
        }
    }
    &s[0..j]
}

/// `str::trim` on characters.
pub fn trim_chars(s: &[char]) -> (r: &[char])
    ensures
        r@ == trim(s@),
{
    let a = trim_start_chars(s);
    trim_end_chars(a)
}

/// The characters of `s`, in order.
pub fn chars_of(s: &str) -> (res: Vec<char>)
    ensures
        res@ == s@,
{
    let mut res: Vec<char> = Vec::new();
    for c in it: s.chars()
        invariant
            res@ == it.seq().take(it.index()),
    {
        res.push(c);
    }
    res
}

/// Appends `c` to `s` (`String::push`).
#[verifier::external_body]
pub(crate) fn push_char(s: &mut String, c: char)
    ensures
        final(s)@ == old(s)@.push(c),
{
    s.push(c);
}

/// A `String` holding exactly the characters of `v`.
pub fn string_of(v: &[char]) -> (s: String)
    ensures
        s@ == v@,
{
    let mut s = String::new();
    let mut i: usize = 0;
    while i < v.len()
        invariant
            i <= v@.len(),
            s@ == v@.take(i as int),
        decreases v@.len() - i,
    {
        push_char(&mut s, v[i]);
        assert(v@.take(i as int).push(v@[i as int]) =~= v@.take(i + 1));
        i = i + 1;
    }
    assert(v@.take(v@.len() as int) =~= v@);
    s
}

/// `s` starts with `p`.
pub open spec fn starts_with(s: Seq<char>, p: Seq<char>) -> bool {
    p.len() <= s.len() && s.take(p.len() as int) == p
}

/// `s` ends with `p`.
pub open spec fn ends_with(s: Seq<char>, p: Seq<char>) -> bool {
    p.len() <= s.len() && s.skip(s.len() - p.len()) == p
}

/// `p` occurs in `s` at position `i`.
pub open spec fn occurs_at(s: Seq<char>, p: Seq<char>, i: int) -> bool {
    0 <= i && i + p.len() <= s.len() && s.subrange(i, i + p.len()) == p
}

/// `p` occurs somewhere in `s` (`str::contains`).
pub open spec fn contains(s: Seq<char>, p: Seq<char>) -> bool {
    exists|i: int| occurs_at(s, p, i)
}

pub fn prefix_eq(s: &[char], from: usize, p: &[char]) -> (r: bool)
    requires
        from <= s@.len(),
    ensures
        r == occurs_at(s@, p@, from as int),
{
    if p.len() > s.len() - from {
        return false;
    }
    let mut i: usize = 0;
    while i < p.len()
        invariant
            from + p@.len() <= s@.len(),
            s@.len() == s.len(),
            i <= p@.len(),
            forall|k: int| 0 <= k < i ==> s@[from + k] == p@[k],
        decreases p@.len() - i,
    {
        if s[from + i] != p[i] {
            assert(s@.subrange(from as int, from + p@.len())[i as int] != p@[i as int]);
            return false;
        }
        i = i + 1;
    }
    assert(s@.subrange(from as int, from + p@.len()) =~= p@);
    true
}

pub fn starts_with_chars(s: &[char], p: &[char]) -> (r: bool)
    ensures
        r == starts_with(s@, p@),
{
    let r = prefix_eq(s, 0, p);
    assert(r ==> s@.take(p@.len() as int) =~= s@.subrange(0, p@.len() as int));
    assert(starts_with(s@, p@) ==> s@.take(p@.len() as int) =~= s@.subrange(0, p@.len() as int));
    r
}

pub fn starts_with_str(s: &[char], p: &str) -> (r: bool)
    ensures
        r == starts_with(s@, p@),
{
    let pc = chars_of(p);
    starts_with_chars(s, pc.as_slice())
}

pub fn ends_with_chars(s: &[char], p: &[char]) -> (r: bool)
    ensures
        r == ends_with(s@, p@),
{
    if p.len() > s.len() {
        return false;
    }
    let from = s.len() - p.len();
    let r = prefix_eq(s, from, p);
    assert(s@.skip(from as int) =~= s@.subrange(from as int, from + p@.len()));
    r
}

pub fn ends_with_str(s: &[char], p: &str) -> (r: bool)
    ensures
        r == ends_with(s@, p@),
{
    let pc = chars_of(p);
    ends_with_chars(s, pc.as_slice())
}

pub fn eq_chars(a: &[char], b: &[char]) -> (r: bool)
    ensures
        r == (a@ == b@),
{
    if a.len() != b.len() {
        return false;
    }
    let r = prefix_eq(a, 0, b);
    assert(a@.subrange(0, b@.len() as int) =~= a@);
    r
}

pub fn eq_str(a: &[char], b: &str) -> (r: bool)
    ensures
        r == (a@ == b@),
{
    let bc = chars_of(b);
    eq_chars(a, bc.as_slice())
}

/// First position at or after `from` where `p` occurs in `s`.
pub fn find_from(s: &[char], p: &[char], from: usize) -> (r: Option<usize>)
    requires
        from <= s@.len(),
    ensures
        match r {
            Some(i) => from <= i && occurs_at(s@, p@, i as int) && forall|k: int|
                from <= k < i ==> !occurs_at(s@, p@, k),
            None => forall|k: int| from <= k ==> !occurs_at(s@, p@, k),
        },
{
    if p.len() > s.len() {
        return None;
    }
    let last = s.len() - p.len();
    let mut i = from;
    while i <= last
        invariant
            from <= i,
            last + p@.len() == s@.len(),
            forall|k: int| from <= k < i ==> !occurs_at(s@, p@, k),
        decreases last + 1 - i,
    {
        if prefix_eq(s, i, p) {
            return Some(i);
        }
        if i == last {
            return None;
        }
        i = i + 1;
    }
    None
}

pub fn contains_chars(s: &[char], p: &[char]) -> (r: bool)
    ensures
        r == contains(s@, p@),
{
    match find_from(s, p, 0) {
        Some(_) => true,
        None => false,
    }
}

pub fn contains_str(s: &[char], p: &str) -> (r: bool)
    ensures
        r == contains(s@, p@),
{
    let pc = chars_of(p);
    contains_chars(s, pc.as_slice())
}

pub fn contains_char(s: &[char], c: char) -> (r: bool)
    ensures
        r == s@.contains(c),
{
    let mut i: usize = 0;
    while i < s.len()
        invariant
            i <= s@.len(),
            s@.len() == s.len(),
            forall|k: int| 0 <= k < i ==> s@[k] != c,
        decreases s@.len() - i,
    {
        if s[i] == c {
            return true;
        }
        i = i + 1;
    }
    false
}

pub fn to_vec(s: &[char]) -> (v: Vec<char>)
    ensures
        v@ == s@,
{
    vstd::slice::slice_to_vec(s)
}


/// Position of the first occurrence of `c` in `s` (the length if none).
pub open spec fn index_of_char(s: Seq<char>, c: char) -> nat
    decreases s.len(),
{
    if s.len() == 0 {
        0
    } else if s[0] == c {
        0
    } else {
        1 + index_of_char(s.drop_first(), c)
    }
}

pub proof fn lemma_index_of_char(s: Seq<char>, c: char, k: int)
    requires
        0 <= k <= s.len(),
        forall|m: int| 0 <= m < k ==> s[m] != c,
        k == s.len() || s[k] == c,
    ensures
        index_of_char(s, c) == k,
    decreases k,
{
    if k > 0 {
        lemma_index_of_char(s.drop_first(), c, k - 1);
    }
}

/// Position of the first whitespace character of `s` (the length if none).
pub open spec fn index_of_ws(s: Seq<char>) -> nat
    decreases s.len(),
{
    if s.len() == 0 {
        0
    } else if is_ws(s[0]) {
        0
    } else {
        1 + index_of_ws(s.drop_first())
    }
}

pub proof fn lemma_index_of_ws(s: Seq<char>, k: int)
    requires
        0 <= k <= s.len(),
        forall|m: int| 0 <= m < k ==> !is_ws(#[trigger] s[m]),
        k == s.len() || is_ws(s[k]),
    ensures
        index_of_ws(s) == k,
    decreases k,
{
    if k > 0 {
        assert forall|m: int| 0 <= m < k - 1 implies !is_ws(#[trigger] s.drop_first()[m]) by {
            assert(s.drop_first()[m] == s[m + 1]);
        }
        lemma_index_of_ws(s.drop_first(), k - 1);
    }
}

pub proof fn lemma_index_of_ws_bound(s: Seq<char>)
    ensures
        index_of_ws(s) <= s.len(),
        s.len() > 0 && !is_ws(s[0]) ==> index_of_ws(s) >= 1,
    decreases s.len(),
{
    if s.len() > 0 && !is_ws(s[0]) {
        lemma_index_of_ws_bound(s.drop_first());
    }
}

/// A line without the carriage return that ends it.
pub open spec fn strip_cr(l: Seq<char>) -> Seq<char> {
    if l.len() > 0 && l.last() == '\r' {
        l.drop_last()
    } else {
        l
    }
}

/// The lines of `s`, as `str::lines` yields them: split at `\n`, a `\r` right
/// before the `\n` dropped, and no empty line after a final `\n`.
pub open spec fn lines(s: Seq<char>) -> Seq<Seq<char>>
    decreases s.len(),
{
    if s.len() == 0 {
        seq![]
    } else {
        let k = index_of_char(s, '\n');
        if k >= s.len() {
            seq![s]
        } else {
            seq![strip_cr(s.take(k as int))] + lines(s.skip(k + 1 as int))
        }
    }
}

/// The whitespace-separated words of `s` (`str::split_whitespace`).
pub open spec fn words(s: Seq<char>) -> Seq<Seq<char>>
    decreases s.len(),
{
    if s.len() == 0 {
        seq![]
    } else if is_ws(s[0]) {
        words(s.drop_first())
    } else {
        let k = index_of_ws(s);
        proof {
            lemma_index_of_ws_bound(s);
        }
        seq![s.take(k as int)] + words(s.skip(k as int))
    }
}

pub open spec fn view_all(v: Seq<Vec<char>>) -> Seq<Seq<char>> {
    v.map_values(|x: Vec<char>| x@)
}

pub proof fn lemma_view_all_push(v: Seq<Vec<char>>, x: Vec<char>)
    ensures
        view_all(v.push(x)) == view_all(v).push(x@),
{
    assert(view_all(v.push(x)) =~= view_all(v).push(x@));
}

/// The lines of `s` (`str::lines`).
pub fn split_lines(s: &[char]) -> (res: Vec<Vec<char>>)
    ensures
        view_all(res@) == lines(s@),
{
    let mut res: Vec<Vec<char>> = Vec::new();
    let mut pos: usize = 0;
    assert(s@.skip(0) =~= s@);
    while pos < s.len()
        invariant
            pos <= s@.len(),
            s@.len() == s.len(),
            lines(s@) == view_all(res@) + lines(s@.skip(pos as int)),
        decreases s@.len() - pos,
    {
        let ghost rest = s@.skip(pos as int);
        let mut j = pos;
        while j < s.len() && s[j] != '\n'
            invariant
                pos <= j <= s@.len(),
                s@.len() == s.len(),
                forall|m: int| pos <= m < j ==> s@[m] != '\n',
            decreases s@.len() - j,
        {
            j = j + 1;
        }
        proof {
            lemma_index_of_char(rest, '\n', j - pos);
        }
        if j == s.len() {
            let line = to_vec(&s[pos..j]);
            proof {
                assert(line@ =~= rest);
                lemma_view_all_push(res@, line);
                assert(s@.skip(j as int) =~= Seq::<char>::empty());
            }
            res.push(line);
            assert(lines(s@) =~= view_all(res@));
            pos = j;
        } else {
            let mut end = j;
            if end > pos && s[end - 1] == '\r' {
                end = end - 1;
            }
            let line = to_vec(&s[pos..end]);
            proof {
                assert(rest.take(j - pos) =~= s@.subrange(pos as int, j as int));
                assert(line@ =~= strip_cr(rest.take(j - pos)));
                assert(rest.skip(j - pos + 1) =~= s@.skip(j + 1));
                lemma_view_all_push(res@, line);
                assert(view_all(res@) + lines(rest) =~= view_all(res@.push(line)) + lines(
                    s@.skip(j + 1),
                ));
            }
            res.push(line);
            pos = j + 1;
        }
    }
    assert(s@.skip(pos as int) =~= Seq::<char>::empty());
    assert(view_all(res@) + seq![] =~= view_all(res@));
    res
}

pub proof fn lemma_words_skip_ws(s: Seq<char>, i: int, j: int)
    requires
        0 <= i <= j <= s.len(),
        forall|m: int| i <= m < j ==> is_ws(#[trigger] s[m]),
    ensures
        words(s.skip(i)) == words(s.skip(j)),
    decreases j - i,
{
    if i < j {
        assert(s.skip(i).drop_first() =~= s.skip(i + 1));
        assert(is_ws(s.skip(i)[0]));
        lemma_words_skip_ws(s, i + 1, j);
    }
}

/// The whitespace-separated words of `s` (`str::split_whitespace`).
pub fn split_words(s: &[char]) -> (res: Vec<Vec<char>>)
    ensures
        view_all(res@) == words(s@),
{
    let mut res: Vec<Vec<char>> = Vec::new();
    let mut pos: usize = 0;
    assert(s@.skip(0) =~= s@);
    while pos < s.len()
        invariant
            pos <= s@.len(),
            s@.len() == s.len(),
            words(s@) == view_all(res@) + words(s@.skip(pos as int)),
        decreases s@.len() - pos,
    {
        let start = skip_ws_from(s, pos);
        proof {
            lemma_words_skip_ws(s@, pos as int, start as int);
        }
        if start == s.len() {
            assert(s@.skip(start as int) =~= Seq::<char>::empty());
            pos = start;
        } else {
            let mut j = start;
            while j < s.len() && !is_ws_char(s[j])
                invariant
                    start <= j <= s@.len(),
                    s@.len() == s.len(),
                    forall|m: int| start <= m < j ==> !is_ws(#[trigger] s@[m]),
                decreases s@.len() - j,
            {
                j = j + 1;
            }
            let ghost rest = s@.skip(start as int);
            proof {
                assert forall|m: int| 0 <= m < j - start implies !is_ws(#[trigger] rest[m]) by {
                    assert(rest[m] == s@[start + m]);
                }
                lemma_index_of_ws(rest, j - start);
                assert(rest.take(j - start) =~= s@.subrange(start as int, j as int));
                assert(rest.skip(j - start) =~= s@.skip(j as int));
            }
            let word = to_vec(&s[start..j]);
            proof {
                lemma_view_all_push(res@, word);
                assert(view_all(res@) + words(rest) =~= view_all(res@.push(word)) + words(
                    s@.skip(j as int),
                ));
            }
            res.push(word);
            pos = j;
        }
    }
    assert(s@.skip(pos as int) =~= Seq::<char>::empty());
    assert(view_all(res@) + seq![] =~= view_all(res@));
    res
}

/// The number of UTF-8 bytes of a character.
pub open spec fn utf8_width(c: char) -> nat {
    if (c as u32) < 0x80 {
        1
    } else if (c as u32) < 0x800 {
        2
    } else if (c as u32) < 0x10000 {
        3
    } else {
        4
    }
}

/// The number of UTF-8 bytes of `s` (`str::len`).
pub open spec fn utf8_len(s: Seq<char>) -> nat
    decreases s.len(),
{
    if s.len() == 0 {
        0
    } else {
        utf8_len(s.drop_last()) + utf8_width(s.last())
    }
}

/// Whether `s` takes more than `limit` UTF-8 bytes.
pub fn utf8_longer(s: &[char], limit: usize) -> (r: bool)
    ensures
        r == (utf8_len(s@) > limit),
{
    let mut acc: usize = 0;
    let mut i: usize = 0;
    assert(s@.take(0) =~= Seq::<char>::empty());
    while i < s.len()
        invariant
            i <= s@.len(),
            acc == utf8_len(s@.take(i as int)),
            acc <= limit,
        decreases s@.len() - i,
    {
        assert(s@.take(i + 1).drop_last() =~= s@.take(i as int));
        let c = s[i] as u32;
        let w: usize = if c < 0x80 {
            1
        } else if c < 0x800 {
            2
        } else if c < 0x10000 {
            3
        } else {
            4
        };
        if w > limit - acc {
            proof {
                lemma_utf8_len_prefix(s@, i + 1);
            }
            return true;
        }
        acc = acc + w;
        i = i + 1;
    }
    assert(s@.take(i as int) =~= s@);
    false
}

/// A longer string takes at least as many bytes as its prefix.
proof fn lemma_utf8_len_prefix(s: Seq<char>, k: int)
    requires
        0 <= k <= s.len(),
    ensures
        utf8_len(s.take(k)) <= utf8_len(s),
    decreases s.len() - k,
{
    if k < s.len() {
        lemma_utf8_len_prefix(s, k + 1);
        assert(s.take(k + 1).drop_last() =~= s.take(k));
    } else {
        assert(s.take(k) =~= s);
    }
}

/// The number of UTF-8 bytes of `s` (`str::len`), or `usize::MAX` when
/// that does not fit.
pub fn utf8_len_sat(s: &[char]) -> (r: usize)
    ensures
        r == (if utf8_len(s@) <= usize::MAX {
            utf8_len(s@)
        } else {
            usize::MAX as nat
        }),
{
    let mut acc: usize = 0;
    let mut i: usize = 0;
    assert(s@.take(0) =~= Seq::<char>::empty());
    while i < s.len()
        invariant
            i <= s@.len(),
            acc == utf8_len(s@.take(i as int)),
        decreases s@.len() - i,
    {
        assert(s@.take(i + 1).drop_last() =~= s@.take(i as int));
        let c = s[i] as u32;
        let w: usize = if c < 0x80 {
            1
        } else if c < 0x800 {
            2
        } else if c < 0x10000 {
            3
        } else {
            4
        };
        if w > usize::MAX - acc {
            proof {
                lemma_utf8_len_prefix(s@, i + 1);
            }
            return usize::MAX;
        }
        acc = acc + w;
        i = i + 1;
    }
    assert(s@.take(i as int) =~= s@);
    acc
}

/// A string takes between one and four bytes a character.
pub proof fn lemma_utf8_len_bound(s: Seq<char>)
    ensures
        s.len() <= utf8_len(s) <= 4 * s.len(),
    decreases s.len(),
{
    if s.len() > 0 {
        lemma_utf8_len_bound(s.drop_last());
    }
}

pub proof fn lemma_index_of_char_bound(s: Seq<char>, c: char)
    ensures
        index_of_char(s, c) <= s.len(),
        index_of_char(s, c) < s.len() ==> s[index_of_char(s, c) as int] == c,
    decreases s.len(),
{
    if s.len() > 0 && s[0] != c {
        lemma_index_of_char_bound(s.drop_first(), c);
    }
}

/// No more lines than characters, and no line longer than the text.
pub proof fn lemma_lines_bound(s: Seq<char>)
    ensures
        lines(s).len() <= s.len(),
        forall|k: int| 0 <= k < lines(s).len() ==> (#[trigger] lines(s)[k]).len() <= s.len(),
    decreases s.len(),
{
    if s.len() > 0 {
        let k = index_of_char(s, '\n');
        lemma_index_of_char_bound(s, '\n');
        if k < s.len() {
            lemma_lines_bound(s.skip(k + 1 as int));
            let rest = lines(s.skip(k + 1 as int));
            assert(lines(s) == seq![strip_cr(s.take(k as int))] + rest);
            assert forall|m: int| 0 <= m < lines(s).len() implies (#[trigger] lines(s)[m]).len()
                <= s.len() by {
                if m > 0 {
                    assert(lines(s)[m] == rest[m - 1]);
                }
            }
        }
    }
}

/// The first position where `p` occurs in `s` (`str::find`, counted in
/// characters).
pub open spec fn first_occurrence(s: Seq<char>, p: Seq<char>) -> Option<int> {
    if contains(s, p) {
        Some(
            choose|i: int| occurs_at(s, p, i) && forall|k: int| 0 <= k < i ==> !occurs_at(s, p, k),
        )
    } else {
        None
    }
}

/// The first position where `p` occurs in `s`.
pub fn find_first(s: &[char], p: &[char]) -> (r: Option<usize>)
    ensures
        match r {
            Some(i) => first_occurrence(s@, p@) == Some(i as int) && i + p@.len() <= s@.len(),
            None => first_occurrence(s@, p@) is None,
        },
{
    match find_from(s, p, 0) {
        Some(i) => {
            let ghost q = |j: int| occurs_at(s@, p@, j) && forall|k: int| 0 <= k < j ==> !occurs_at(s@, p@, k);
            assert(q(i as int));
            let ghost j = choose|j: int| occurs_at(s@, p@, j) && forall|k: int| 0 <= k < j ==> !occurs_at(s@, p@, k);
            assert(occurs_at(s@, p@, j));
            assert(j == i) by {
                if j < i {
                    assert(!occurs_at(s@, p@, j));
                }
                if i < j {
                    assert(!occurs_at(s@, p@, i as int));
                }
            }
            Some(i)
        },
        None => {
            assert(!contains(s@, p@));
            None
        },
    }
}

/// `s` up to its first `c` (`str::split(c).next()`).
pub fn before_char(s: &[char], c: char) -> (r: &[char])
    ensures
        r@ == s@.take(index_of_char(s@, c) as int),
        r@.len() <= s@.len(),
{
    let mut j: usize = 0;
    while j < s.len() && s[j] != c
        invariant
            j <= s@.len(),
            forall|m: int| 0 <= m < j ==> s@[m] != c,
        decreases s@.len() - j,
    {
        j = j + 1;
    }
    proof {
        lemma_index_of_char(s@, c, j as int);
    }
    &s[0..j]
}

/// No word is longer than the text.
pub proof fn lemma_words_bound(s: Seq<char>)
    ensures
        forall|k: int| 0 <= k < words(s).len() ==> (#[trigger] words(s)[k]).len() <= s.len(),
    decreases s.len(),
{
    if s.len() > 0 {
        if is_ws(s[0]) {
            lemma_words_bound(s.drop_first());
            assert(words(s) == words(s.drop_first()));
        } else {
            let k = index_of_ws(s);
            lemma_index_of_ws_bound(s);
            lemma_words_bound(s.skip(k as int));
            let rest = words(s.skip(k as int));
            assert(words(s) == seq![s.take(k as int)] + rest);
            assert forall|m: int| 0 <= m < words(s).len() implies (#[trigger] words(s)[m]).len()
                <= s.len() by {
                if m > 0 {
                    assert(words(s)[m] == rest[m - 1]);
                    assert(rest[m - 1].len() <= s.skip(k as int).len());
                } else {
                    assert(words(s)[0] == s.take(k as int));
                }
            }
        }
    }
}

/// Trimming never lengthens.
pub proof fn lemma_trim_len(s: Seq<char>)
    ensures
        trim(s).len() <= s.len(),
{
    lemma_trim_start_stops(s);
    lemma_trim_end_stops(trim_start(s));
}

/// Whitespace around a text does not change the text trimmed.
pub proof fn lemma_trim_surrounded(ws1: Seq<char>, l: Seq<char>, ws2: Seq<char>)
    requires
        all_ws(ws1),
        all_ws(ws2),
    ensures
        trim(ws1 + l + ws2) == trim(l),
{
    let x = l + ws2;
    assert((ws1 + x).take(ws1.len() as int) =~= ws1);
    assert((ws1 + x).skip(ws1.len() as int) =~= x);
    assert(ws1 + l + ws2 =~= ws1 + x);
    lemma_trim_start_skip(ws1 + x, ws1.len() as int);
    lemma_trim_start_stops(l);
    let ts = trim_start(l);
    let k = l.len() - ts.len();
    assert(x.take(k) =~= l.take(k));
    assert(x.skip(k) =~= ts + ws2);
    lemma_trim_start_skip(x, k);
    if ts.len() == 0 {
        assert(all_ws(x)) by {
            assert forall|i: int| 0 <= i < x.len() implies is_ws(#[trigger] x[i]) by {
                if i < l.len() {
                    assert(l.take(k)[i] == l[i]);
                } else {
                    assert(ws2[i - l.len()] == x[i]);
                }
            }
        }
        assert(x.skip(x.len() as int) =~= Seq::<char>::empty());
        assert(x.take(x.len() as int) =~= x);
        lemma_trim_start_skip(x, x.len() as int);
        assert(trim_start(Seq::<char>::empty()) == Seq::<char>::empty());
    } else {
        assert((ts + ws2)[0] == ts[0]);
        assert(trim_start(ts + ws2) == ts + ws2);
        assert((ts + ws2).skip(ts.len() as int) =~= ws2);
        assert((ts + ws2).take(ts.len() as int) =~= ts);
        lemma_trim_end_take(ts + ws2, ts.len() as int);
    }
}

/// The text trimmed, with the whitespace that was around it.
pub proof fn lemma_trim_split(l: Seq<char>) -> (ab: (Seq<char>, Seq<char>))
    ensures
        all_ws(ab.0),
        all_ws(ab.1),
        l == ab.0 + trim(l) + ab.1,
{
    lemma_trim_start_stops(l);
    let ts = trim_start(l);
    let a = l.take(l.len() - ts.len());
    lemma_trim_end_stops(ts);
    let te = trim_end(ts);
    let b = ts.skip(te.len() as int);
    assert(l =~= a + te + b);
    (a, b)
}

} // verus!
