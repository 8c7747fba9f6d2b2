//! Keyboard layouts: the key codes each key name or character stands for.
use vstd::prelude::*;

use crate::text::{self, chars_of, eq_chars, to_vec};

verus! {

/// The map that a list of (key, codes) insertions leaves: a later insertion
/// of a key replaces an earlier one.
pub open spec fn map_of(s: Seq<(Seq<char>, Seq<char>)>) -> Map<Seq<char>, Seq<char>>
    decreases s.len(),
{
    if s.len() == 0 {
        Map::empty()
    } else {
        map_of(s.drop_last()).insert(s.last().0, s.last().1)
    }
}

pub proof fn lemma_map_of_suffix(s: Seq<(Seq<char>, Seq<char>)>, i: int, key: Seq<char>)
    requires
        0 <= i <= s.len(),
        forall|k: int| i <= k < s.len() ==> (#[trigger] s[k]).0 != key,
    ensures
        map_of(s).dom().contains(key) == map_of(s.take(i)).dom().contains(key),
        map_of(s).dom().contains(key) ==> map_of(s)[key] == map_of(s.take(i))[key],
    decreases s.len() - i,
{
    if i < s.len() {
        assert(s.drop_last().take(i) =~= s.take(i));
        assert forall|k: int| i <= k < s.drop_last().len() implies (
        #[trigger] s.drop_last()[k]).0 != key by {
            assert(s.drop_last()[k] == s[k]);
        }
        lemma_map_of_suffix(s.drop_last(), i, key);
    } else {
        assert(s.take(i) =~= s);
    }
}

/// The pieces of `s` between the occurrences of `c` (`str::split`).
pub open spec fn split_char(s: Seq<char>, c: char) -> Seq<Seq<char>>
    decreases s.len(),
{
    let k = text::index_of_char(s, c);
    if k >= s.len() {
        seq![s]
    } else {
        seq![s.take(k as int)] + split_char(s.skip(k + 1 as int), c)
    }
}

pub fn split_char_chars(s: &[char], c: char) -> (res: Vec<Vec<char>>)
    ensures
        text::view_all(res@) == split_char(s@, c),
        res@.len() >= 1,
{
    let mut res: Vec<Vec<char>> = Vec::new();
    let mut pos: usize = 0;
    assert(s@.skip(0) =~= s@);
    loop
        invariant
            pos <= s@.len(),
            s@.len() == s.len(),
            split_char(s@, c) == text::view_all(res@) + split_char(s@.skip(pos as int), c),
        decreases s@.len() - pos,
    {
        let ghost rest = s@.skip(pos as int);
        let mut j = pos;
        while j < s.len() && s[j] != c
            invariant
                pos <= j <= s@.len(),
                s@.len() == s.len(),
                forall|m: int| pos <= m < j ==> s@[m] != c,
            decreases s@.len() - j,
        {
            j = j + 1;
        }
        proof {
            text::lemma_index_of_char(rest, c, j - pos);
        }
        let piece = to_vec(&s[pos..j]);
        assert(piece@ =~= rest.take(j - pos));
        proof {
            text::lemma_view_all_push(res@, piece);
        }
        if j == s.len() {
            res.push(piece);
            assert(rest.take(j - pos) =~= rest);
            assert(split_char(s@, c) =~= text::view_all(res@));
            return res;
        }
        res.push(piece);
        assert(rest.skip(j - pos + 1) =~= s@.skip(j + 1));
        assert(text::view_all(res@) + split_char(s@.skip(j + 1), c) =~= text::view_all(res@).drop_last() + split_char(rest, c));
        pos = j + 1;
    }
}

/// The key codes of each key name or character.
pub struct KeyboardLayout {
    entries: Vec<(Vec<char>, Vec<char>)>,
}

impl KeyboardLayout {
    pub closed spec fn entries_view(&self) -> Seq<(Seq<char>, Seq<char>)> {
        self.entries@.map_values(|e: (Vec<char>, Vec<char>)| (e.0@, e.1@))
    }
}

impl View for KeyboardLayout {
    type V = Map<Seq<char>, Seq<char>>;

    closed spec fn view(&self) -> Map<Seq<char>, Seq<char>> {
        map_of(self.entries_view())
    }
}

/// The entries of the US layout, in the order they are put in.
pub open spec fn us_entries() -> Seq<(Seq<char>, Seq<char>)> {
    us_chunk_7(us_chunk_6(us_chunk_5(us_chunk_4(us_chunk_3(us_chunk_2(us_chunk_1(us_chunk_0(Seq::empty()))))))))
}

pub open spec fn us_chunk_0(s: Seq<(Seq<char>, Seq<char>)>) -> Seq<(Seq<char>, Seq<char>)> {
    s
        .push(("CTRL"@, "01,00,00"@))
        .push(("CONTROL"@, "01,00,00"@))
        .push(("SHIFT"@, "02,00,00"@))
        .push(("ALT"@, "04,00,00"@))
        .push(("GUI"@, "08,00,00"@))
        .push(("WINDOWS"@, "08,00,00"@))
        .push(("COMMAND"@, "08,00,00"@))
        .push(("a"@, "00,00,04"@))
        .push(("A"@, "02,00,04"@))
        .push(("b"@, "00,00,05"@))
        .push(("B"@, "02,00,05"@))
        .push(("c"@, "00,00,06"@))
        .push(("C"@, "02,00,06"@))
        .push(("d"@, "00,00,07"@))
        .push(("D"@, "02,00,07"@))
        .push(("e"@, "00,00,08"@))
        .push(("E"@, "02,00,08"@))
        .push(("f"@, "00,00,09"@))
}

pub open spec fn us_chunk_1(s: Seq<(Seq<char>, Seq<char>)>) -> Seq<(Seq<char>, Seq<char>)> {
    s
        .push(("F"@, "02,00,09"@))
        .push(("g"@, "00,00,0a"@))
        .push(("G"@, "02,00,0a"@))
        .push(("h"@, "00,00,0b"@))
        .push(("H"@, "02,00,0b"@))
        .push(("i"@, "00,00,0c"@))
        .push(("I"@, "02,00,0c"@))
        .push(("j"@, "00,00,0d"@))
        .push(("J"@, "02,00,0d"@))
        .push(("k"@, "00,00,0e"@))
        .push(("K"@, "02,00,0e"@))
        .push(("l"@, "00,00,0f"@))
        .push(("L"@, "02,00,0f"@))
        .push(("m"@, "00,00,10"@))
        .push(("M"@, "02,00,10"@))
        .push(("n"@, "00,00,11"@))
        .push(("N"@, "02,00,11"@))
        .push(("o"@, "00,00,12"@))
}

pub open spec fn us_chunk_2(s: Seq<(Seq<char>, Seq<char>)>) -> Seq<(Seq<char>, Seq<char>)> {
    s
        .push(("O"@, "02,00,12"@))
        .push(("p"@, "00,00,13"@))
        .push(("P"@, "02,00,13"@))
        .push(("q"@, "00,00,14"@))
        .push(("Q"@, "02,00,14"@))
        .push(("r"@, "00,00,15"@))
        .push(("R"@, "02,00,15"@))
        .push(("s"@, "00,00,16"@))
        .push(("S"@, "02,00,16"@))
        .push(("t"@, "00,00,17"@))
        .push(("T"@, "02,00,17"@))
        .push(("u"@, "00,00,18"@))
        .push(("U"@, "02,00,18"@))
        .push(("v"@, "00,00,19"@))
        .push(("V"@, "02,00,19"@))
        .push(("w"@, "00,00,1a"@))
        .push(("W"@, "02,00,1a"@))
        .push(("x"@, "00,00,1b"@))
}

pub open spec fn us_chunk_3(s: Seq<(Seq<char>, Seq<char>)>) -> Seq<(Seq<char>, Seq<char>)> {
    s
        .push(("X"@, "02,00,1b"@))
        .push(("y"@, "00,00,1c"@))
        .push(("Y"@, "02,00,1c"@))
        .push(("z"@, "00,00,1d"@))
        .push(("Z"@, "02,00,1d"@))
        .push(("1"@, "00,00,1e"@))
        .push(("!"@, "02,00,1e"@))
        .push(("2"@, "00,00,1f"@))
        .push(("@"@, "02,00,1f"@))
        .push(("3"@, "00,00,20"@))
        .push(("#"@, "02,00,20"@))
        .push(("4"@, "00,00,21"@))
        .push(("$"@, "02,00,21"@))
        .push(("5"@, "00,00,22"@))
        .push(("%"@, "02,00,22"@))
        .push(("6"@, "00,00,23"@))
        .push(("^"@, "02,00,23"@))
        .push(("7"@, "00,00,24"@))
}

pub open spec fn us_chunk_4(s: Seq<(Seq<char>, Seq<char>)>) -> Seq<(Seq<char>, Seq<char>)> {
    s
        .push(("&"@, "02,00,24"@))
        .push(("8"@, "00,00,25"@))
        .push(("*"@, "02,00,25"@))
        .push(("9"@, "00,00,26"@))
        .push(("("@, "02,00,26"@))
        .push(("0"@, "00,00,27"@))
        .push((")"@, "02,00,27"@))
        .push(("ENTER"@, "00,00,28"@))
        .push(("ESC"@, "00,00,29"@))
        .push(("ESCAPE"@, "00,00,29"@))
        .push(("BACKSPACE"@, "00,00,2a"@))
        .push(("TAB"@, "00,00,2b"@))
        .push(("SPACE"@, "00,00,2c"@))
        .push((" "@, "00,00,2c"@))
        .push(("-"@, "00,00,2d"@))
        .push(("_"@, "02,00,2d"@))
        .push(("="@, "00,00,2e"@))
        .push(("+"@, "02,00,2e"@))
}

pub open spec fn us_chunk_5(s: Seq<(Seq<char>, Seq<char>)>) -> Seq<(Seq<char>, Seq<char>)> {
    s
        .push(("["@, "00,00,2f"@))
        .push(("{"@, "02,00,2f"@))
        .push(("]"@, "00,00,30"@))
        .push(("}"@, "02,00,30"@))
        .push(("\\"@, "00,00,31"@))
        .push(("|"@, "02,00,31"@))
        .push((";"@, "00,00,33"@))
        .push((":"@, "02,00,33"@))
        .push(("'"@, "00,00,34"@))
        .push(("\""@, "02,00,34"@))
        .push(("`"@, "00,00,35"@))
        .push(("~"@, "02,00,35"@))
        .push((","@, "00,00,36"@))
        .push(("<"@, "02,00,36"@))
        .push(("."@, "00,00,37"@))
        .push((">"@, "02,00,37"@))
        .push(("/"@, "00,00,38"@))
        .push(("?"@, "02,00,38"@))
}

pub open spec fn us_chunk_6(s: Seq<(Seq<char>, Seq<char>)>) -> Seq<(Seq<char>, Seq<char>)> {
    s
        .push(("CAPSLOCK"@, "00,00,39"@))
        .push(("F1"@, "00,00,3a"@))
        .push(("F2"@, "00,00,3b"@))
        .push(("F3"@, "00,00,3c"@))
        .push(("F4"@, "00,00,3d"@))
        .push(("F5"@, "00,00,3e"@))
        .push(("F6"@, "00,00,3f"@))
        .push(("F7"@, "00,00,40"@))
        .push(("F8"@, "00,00,41"@))
        .push(("F9"@, "00,00,42"@))
        .push(("F10"@, "00,00,43"@))
        .push(("F11"@, "00,00,44"@))
        .push(("F12"@, "00,00,45"@))
        .push(("PRINTSCREEN"@, "00,00,46"@))
        .push(("SCROLLLOCK"@, "00,00,47"@))
        .push(("PAUSE"@, "00,00,48"@))
        .push(("BREAK"@, "00,00,48"@))
        .push(("INSERT"@, "00,00,49"@))
}

pub open spec fn us_chunk_7(s: Seq<(Seq<char>, Seq<char>)>) -> Seq<(Seq<char>, Seq<char>)> {
    s
        .push(("HOME"@, "00,00,4a"@))
        .push(("PAGEUP"@, "00,00,4b"@))
        .push(("DELETE"@, "00,00,4c"@))
        .push(("DEL"@, "00,00,4c"@))
        .push(("END"@, "00,00,4d"@))
        .push(("PAGEDOWN"@, "00,00,4e"@))
        .push(("RIGHTARROW"@, "00,00,4f"@))
        .push(("RIGHT"@, "00,00,4f"@))
        .push(("LEFTARROW"@, "00,00,50"@))
        .push(("LEFT"@, "00,00,50"@))
        .push(("DOWNARROW"@, "00,00,51"@))
        .push(("DOWN"@, "00,00,51"@))
        .push(("UPARROW"@, "00,00,52"@))
        .push(("UP"@, "00,00,52"@))
        .push(("NUMLOCK"@, "00,00,53"@))
        .push(("MENU"@, "00,00,65"@))
        .push(("APP"@, "00,00,65"@))
}

impl KeyboardLayout {
    /// A layout with no keys.
    pub fn new() -> (r: KeyboardLayout)
        ensures
            r@ == Map::<Seq<char>, Seq<char>>::empty(),
            r.entries_view() == Seq::<(Seq<char>, Seq<char>)>::empty(),
    {
        let r = KeyboardLayout { entries: Vec::new() };
        assert(r.entries_view() =~= Seq::<(Seq<char>, Seq<char>)>::empty());
        r
    }

    pub fn insert_chars(&mut self, key: Vec<char>, codes: Vec<char>)
        ensures
            final(self).entries_view() == old(self).entries_view().push((key@, codes@)),
    {
        let ghost k = key@;
        let ghost c = codes@;
        self.entries.push((key, codes));
        assert(self.entries_view() =~= old(self).entries_view().push((k, c)));
    }

    /// Sets the codes of a key, replacing what it had.
    pub fn insert(&mut self, key: &str, codes: &str)
        ensures
            final(self)@ == old(self)@.insert(key@, codes@),
    {
        let ghost before = self.entries_view();
        self.insert_chars(chars_of(key), chars_of(codes));
        assert(self.entries_view().drop_last() =~= before);
    }

    /// The codes recorded for `key`.
    pub fn lookup_chars(&self, key: &[char]) -> (r: Option<&[char]>)
        ensures
            match r {
                Some(c) => self@.dom().contains(key@) && c@ == self@[key@],
                None => !self@.dom().contains(key@),
            },
    {
        let mut i = self.entries.len();
        let ghost ev = self.entries_view();
        assert(ev.len() == self.entries@.len());
        while i > 0
            invariant
                i <= self.entries@.len(),
                ev == self.entries_view(),
                ev.len() == self.entries@.len(),
                forall|k: int| i <= k < ev.len() ==> (#[trigger] ev[k]).0 != key@,
            decreases i,
        {
            assert(ev[i - 1] == (self.entries@[i - 1].0@, self.entries@[i - 1].1@));
            if eq_chars(self.entries[i - 1].0.as_slice(), key) {
                proof {
                    lemma_map_of_suffix(ev, i as int, key@);
                    assert(ev.take(i as int).drop_last() =~= ev.take(i - 1));
                }
                return Some(self.entries[i - 1].1.as_slice());
            }
            i = i - 1;
        }
        proof {
            lemma_map_of_suffix(ev, 0, key@);
            assert(ev.take(0) =~= Seq::<(Seq<char>, Seq<char>)>::empty());
        }
        None
    }

    /// The codes of `key`, split at commas.
    pub fn codes_for(&self, key: &[char]) -> (r: Option<Vec<Vec<char>>>)
        ensures
            match r {
                Some(v) => self@.dom().contains(key@) && text::view_all(v@) == split_char(
                    self@[key@],
                    ',',
                ),
                None => !self@.dom().contains(key@),
            },
    {
        match self.lookup_chars(key) {
            Some(c) => Some(split_char_chars(c, ',')),
            None => None,
        }
    }

    /// The codes of `key`, split at commas.
    pub fn get_bytes_for_key(&self, key: &str) -> (r: Option<Vec<String>>)
        ensures
            match r {
                Some(v) => self@.dom().contains(key@) && v@.map_values(|x: String| x@)
                    == split_char(self@[key@], ','),
                None => !self@.dom().contains(key@),
            },
    {
        let k = chars_of(key);
        match self.codes_for(k.as_slice()) {
            Some(v) => Some(crate::encoder::strings_of(&v)),
            None => None,
        }
    }

    /// The US keyboard layout.
    pub fn default_us() -> (r: KeyboardLayout)
        ensures
            r@ == map_of(us_entries()),
    {
        let mut layout = KeyboardLayout::new();
        add_us_chunk_0(&mut layout);
        add_us_chunk_1(&mut layout);
        add_us_chunk_2(&mut layout);
        add_us_chunk_3(&mut layout);
        add_us_chunk_4(&mut layout);
        add_us_chunk_5(&mut layout);
        add_us_chunk_6(&mut layout);
        add_us_chunk_7(&mut layout);
        assert(layout.entries_view() == us_entries());
        layout
    }
}

fn add_us_chunk_0(layout: &mut KeyboardLayout)
    ensures
        final(layout).entries_view() == us_chunk_0(old(layout).entries_view()),
{
    layout.insert_chars(chars_of("CTRL"), chars_of("01,00,00"));
    layout.insert_chars(chars_of("CONTROL"), chars_of("01,00,00"));
    layout.insert_chars(chars_of("SHIFT"), chars_of("02,00,00"));
    layout.insert_chars(chars_of("ALT"), chars_of("04,00,00"));
    layout.insert_chars(chars_of("GUI"), chars_of("08,00,00"));
    layout.insert_chars(chars_of("WINDOWS"), chars_of("08,00,00"));
    layout.insert_chars(chars_of("COMMAND"), chars_of("08,00,00"));
    layout.insert_chars(chars_of("a"), chars_of("00,00,04"));
    layout.insert_chars(chars_of("A"), chars_of("02,00,04"));
    layout.insert_chars(chars_of("b"), chars_of("00,00,05"));
    layout.insert_chars(chars_of("B"), chars_of("02,00,05"));
    layout.insert_chars(chars_of("c"), chars_of("00,00,06"));
    layout.insert_chars(chars_of("C"), chars_of("02,00,06"));
    layout.insert_chars(chars_of("d"), chars_of("00,00,07"));
    layout.insert_chars(chars_of("D"), chars_of("02,00,07"));
    layout.insert_chars(chars_of("e"), chars_of("00,00,08"));
    layout.insert_chars(chars_of("E"), chars_of("02,00,08"));
    layout.insert_chars(chars_of("f"), chars_of("00,00,09"));
}

fn add_us_chunk_1(layout: &mut KeyboardLayout)
    ensures
        final(layout).entries_view() == us_chunk_1(old(layout).entries_view()),
{
    layout.insert_chars(chars_of("F"), chars_of("02,00,09"));
    layout.insert_chars(chars_of("g"), chars_of("00,00,0a"));
    layout.insert_chars(chars_of("G"), chars_of("02,00,0a"));
    layout.insert_chars(chars_of("h"), chars_of("00,00,0b"));
    layout.insert_chars(chars_of("H"), chars_of("02,00,0b"));
    layout.insert_chars(chars_of("i"), chars_of("00,00,0c"));
    layout.insert_chars(chars_of("I"), chars_of("02,00,0c"));
    layout.insert_chars(chars_of("j"), chars_of("00,00,0d"));
    layout.insert_chars(chars_of("J"), chars_of("02,00,0d"));
    layout.insert_chars(chars_of("k"), chars_of("00,00,0e"));
    layout.insert_chars(chars_of("K"), chars_of("02,00,0e"));
    layout.insert_chars(chars_of("l"), chars_of("00,00,0f"));
    layout.insert_chars(chars_of("L"), chars_of("02,00,0f"));
    layout.insert_chars(chars_of("m"), chars_of("00,00,10"));
    layout.insert_chars(chars_of("M"), chars_of("02,00,10"));
    layout.insert_chars(chars_of("n"), chars_of("00,00,11"));
    layout.insert_chars(chars_of("N"), chars_of("02,00,11"));
    layout.insert_chars(chars_of("o"), chars_of("00,00,12"));
}

fn add_us_chunk_2(layout: &mut KeyboardLayout)
    ensures
        final(layout).entries_view() == us_chunk_2(old(layout).entries_view()),
{
    layout.insert_chars(chars_of("O"), chars_of("02,00,12"));
    layout.insert_chars(chars_of("p"), chars_of("00,00,13"));
    layout.insert_chars(chars_of("P"), chars_of("02,00,13"));
    layout.insert_chars(chars_of("q"), chars_of("00,00,14"));
    layout.insert_chars(chars_of("Q"), chars_of("02,00,14"));
    layout.insert_chars(chars_of("r"), chars_of("00,00,15"));
    layout.insert_chars(chars_of("R"), chars_of("02,00,15"));
    layout.insert_chars(chars_of("s"), chars_of("00,00,16"));
    layout.insert_chars(chars_of("S"), chars_of("02,00,16"));
    layout.insert_chars(chars_of("t"), chars_of("00,00,17"));
    layout.insert_chars(chars_of("T"), chars_of("02,00,17"));
    layout.insert_chars(chars_of("u"), chars_of("00,00,18"));
    layout.insert_chars(chars_of("U"), chars_of("02,00,18"));
    layout.insert_chars(chars_of("v"), chars_of("00,00,19"));
    layout.insert_chars(chars_of("V"), chars_of("02,00,19"));
    layout.insert_chars(chars_of("w"), chars_of("00,00,1a"));
    layout.insert_chars(chars_of("W"), chars_of("02,00,1a"));
    layout.insert_chars(chars_of("x"), chars_of("00,00,1b"));
}

fn add_us_chunk_3(layout: &mut KeyboardLayout)
    ensures
        final(layout).entries_view() == us_chunk_3(old(layout).entries_view()),
{
    layout.insert_chars(chars_of("X"), chars_of("02,00,1b"));
    layout.insert_chars(chars_of("y"), chars_of("00,00,1c"));
    layout.insert_chars(chars_of("Y"), chars_of("02,00,1c"));
    layout.insert_chars(chars_of("z"), chars_of("00,00,1d"));
    layout.insert_chars(chars_of("Z"), chars_of("02,00,1d"));
    layout.insert_chars(chars_of("1"), chars_of("00,00,1e"));
    layout.insert_chars(chars_of("!"), chars_of("02,00,1e"));
    layout.insert_chars(chars_of("2"), chars_of("00,00,1f"));
    layout.insert_chars(chars_of("@"), chars_of("02,00,1f"));
    layout.insert_chars(chars_of("3"), chars_of("00,00,20"));
    layout.insert_chars(chars_of("#"), chars_of("02,00,20"));
    layout.insert_chars(chars_of("4"), chars_of("00,00,21"));
    layout.insert_chars(chars_of("$"), chars_of("02,00,21"));
    layout.insert_chars(chars_of("5"), chars_of("00,00,22"));
    layout.insert_chars(chars_of("%"), chars_of("02,00,22"));
    layout.insert_chars(chars_of("6"), chars_of("00,00,23"));
    layout.insert_chars(chars_of("^"), chars_of("02,00,23"));
    layout.insert_chars(chars_of("7"), chars_of("00,00,24"));
}

fn add_us_chunk_4(layout: &mut KeyboardLayout)
    ensures
        final(layout).entries_view() == us_chunk_4(old(layout).entries_view()),
{
    layout.insert_chars(chars_of("&"), chars_of("02,00,24"));
    layout.insert_chars(chars_of("8"), chars_of("00,00,25"));
    layout.insert_chars(chars_of("*"), chars_of("02,00,25"));
    layout.insert_chars(chars_of("9"), chars_of("00,00,26"));
    layout.insert_chars(chars_of("("), chars_of("02,00,26"));
    layout.insert_chars(chars_of("0"), chars_of("00,00,27"));
    layout.insert_chars(chars_of(")"), chars_of("02,00,27"));
    layout.insert_chars(chars_of("ENTER"), chars_of("00,00,28"));
    layout.insert_chars(chars_of("ESC"), chars_of("00,00,29"));
    layout.insert_chars(chars_of("ESCAPE"), chars_of("00,00,29"));
    layout.insert_chars(chars_of("BACKSPACE"), chars_of("00,00,2a"));
    layout.insert_chars(chars_of("TAB"), chars_of("00,00,2b"));
    layout.insert_chars(chars_of("SPACE"), chars_of("00,00,2c"));
    layout.insert_chars(chars_of(" "), chars_of("00,00,2c"));
    layout.insert_chars(chars_of("-"), chars_of("00,00,2d"));
    layout.insert_chars(chars_of("_"), chars_of("02,00,2d"));
    layout.insert_chars(chars_of("="), chars_of("00,00,2e"));
    layout.insert_chars(chars_of("+"), chars_of("02,00,2e"));
}

fn add_us_chunk_5(layout: &mut KeyboardLayout)
    ensures
        final(layout).entries_view() == us_chunk_5(old(layout).entries_view()),
{
    layout.insert_chars(chars_of("["), chars_of("00,00,2f"));
    layout.insert_chars(chars_of("{"), chars_of("02,00,2f"));
    layout.insert_chars(chars_of("]"), chars_of("00,00,30"));
    layout.insert_chars(chars_of("}"), chars_of("02,00,30"));
    layout.insert_chars(chars_of("\\"), chars_of("00,00,31"));
    layout.insert_chars(chars_of("|"), chars_of("02,00,31"));
    layout.insert_chars(chars_of(";"), chars_of("00,00,33"));
    layout.insert_chars(chars_of(":"), chars_of("02,00,33"));
    layout.insert_chars(chars_of("'"), chars_of("00,00,34"));
    layout.insert_chars(chars_of("\""), chars_of("02,00,34"));
    layout.insert_chars(chars_of("`"), chars_of("00,00,35"));
    layout.insert_chars(chars_of("~"), chars_of("02,00,35"));
    layout.insert_chars(chars_of(","), chars_of("00,00,36"));
    layout.insert_chars(chars_of("<"), chars_of("02,00,36"));
    layout.insert_chars(chars_of("."), chars_of("00,00,37"));
    layout.insert_chars(chars_of(">"), chars_of("02,00,37"));
    layout.insert_chars(chars_of("/"), chars_of("00,00,38"));
    layout.insert_chars(chars_of("?"), chars_of("02,00,38"));
}

fn add_us_chunk_6(layout: &mut KeyboardLayout)
    ensures
        final(layout).entries_view() == us_chunk_6(old(layout).entries_view()),
{
    layout.insert_chars(chars_of("CAPSLOCK"), chars_of("00,00,39"));
    layout.insert_chars(chars_of("F1"), chars_of("00,00,3a"));
    layout.insert_chars(chars_of("F2"), chars_of("00,00,3b"));
    layout.insert_chars(chars_of("F3"), chars_of("00,00,3c"));
    layout.insert_chars(chars_of("F4"), chars_of("00,00,3d"));
    layout.insert_chars(chars_of("F5"), chars_of("00,00,3e"));
    layout.insert_chars(chars_of("F6"), chars_of("00,00,3f"));
    layout.insert_chars(chars_of("F7"), chars_of("00,00,40"));
    layout.insert_chars(chars_of("F8"), chars_of("00,00,41"));
    layout.insert_chars(chars_of("F9"), chars_of("00,00,42"));
    layout.insert_chars(chars_of("F10"), chars_of("00,00,43"));
    layout.insert_chars(chars_of("F11"), chars_of("00,00,44"));
    layout.insert_chars(chars_of("F12"), chars_of("00,00,45"));
    layout.insert_chars(chars_of("PRINTSCREEN"), chars_of("00,00,46"));
    layout.insert_chars(chars_of("SCROLLLOCK"), chars_of("00,00,47"));
    layout.insert_chars(chars_of("PAUSE"), chars_of("00,00,48"));
    layout.insert_chars(chars_of("BREAK"), chars_of("00,00,48"));
    layout.insert_chars(chars_of("INSERT"), chars_of("00,00,49"));
}

fn add_us_chunk_7(layout: &mut KeyboardLayout)
    ensures
        final(layout).entries_view() == us_chunk_7(old(layout).entries_view()),
{
    layout.insert_chars(chars_of("HOME"), chars_of("00,00,4a"));
    layout.insert_chars(chars_of("PAGEUP"), chars_of("00,00,4b"));
    layout.insert_chars(chars_of("DELETE"), chars_of("00,00,4c"));
    layout.insert_chars(chars_of("DEL"), chars_of("00,00,4c"));
    layout.insert_chars(chars_of("END"), chars_of("00,00,4d"));
    layout.insert_chars(chars_of("PAGEDOWN"), chars_of("00,00,4e"));
    layout.insert_chars(chars_of("RIGHTARROW"), chars_of("00,00,4f"));
    layout.insert_chars(chars_of("RIGHT"), chars_of("00,00,4f"));
    layout.insert_chars(chars_of("LEFTARROW"), chars_of("00,00,50"));
    layout.insert_chars(chars_of("LEFT"), chars_of("00,00,50"));
    layout.insert_chars(chars_of("DOWNARROW"), chars_of("00,00,51"));
    layout.insert_chars(chars_of("DOWN"), chars_of("00,00,51"));
    layout.insert_chars(chars_of("UPARROW"), chars_of("00,00,52"));
    layout.insert_chars(chars_of("UP"), chars_of("00,00,52"));
    layout.insert_chars(chars_of("NUMLOCK"), chars_of("00,00,53"));
    layout.insert_chars(chars_of("MENU"), chars_of("00,00,65"));
    layout.insert_chars(chars_of("APP"), chars_of("00,00,65"));
}

} // verus!
