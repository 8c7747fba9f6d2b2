//! A map from names to values, kept as the list of insertions made into it.
use vstd::prelude::*;

use crate::text::eq_chars;

verus! {

/// The map a list of insertions leaves: a later insertion of a name
/// replaces an earlier one.
pub open spec fn assoc_map<V>(s: Seq<(Seq<char>, V)>) -> Map<Seq<char>, V>
    decreases s.len(),
{
    if s.len() == 0 {
        Map::empty()
    } else {
        assoc_map(s.drop_last()).insert(s.last().0, s.last().1)
    }
}

pub proof fn lemma_assoc_map_suffix<V>(s: Seq<(Seq<char>, V)>, i: int, key: Seq<char>)
    requires
        0 <= i <= s.len(),
        forall|k: int| i <= k < s.len() ==> (#[trigger] s[k]).0 != key,
    ensures
        assoc_map(s).dom().contains(key) == assoc_map(s.take(i)).dom().contains(key),
        assoc_map(s).dom().contains(key) ==> assoc_map(s)[key] == assoc_map(s.take(i))[key],
    decreases s.len() - i,
{
    if i < s.len() {
        assert(s.drop_last().take(i) =~= s.take(i));
        assert forall|k: int| i <= k < s.drop_last().len() implies (
        #[trigger] s.drop_last()[k]).0 != key by {
            assert(s.drop_last()[k] == s[k]);
        }
        lemma_assoc_map_suffix(s.drop_last(), i, key);
    } else {
        assert(s.take(i) =~= s);
    }
}

pub proof fn lemma_assoc_map_finite<V>(s: Seq<(Seq<char>, V)>)
    ensures
        assoc_map(s).dom().finite(),
    decreases s.len(),
{
    if s.len() > 0 {
        lemma_assoc_map_finite(s.drop_last());
    }
}

/// A name is mapped exactly when some insertion was of it.
pub proof fn lemma_assoc_map_dom<V>(s: Seq<(Seq<char>, V)>, key: Seq<char>)
    ensures
        assoc_map(s).dom().contains(key) <==> exists|j: int| 0 <= j < s.len() && (#[trigger] s[j]).0
            == key,
    decreases s.len(),
{
    if s.len() > 0 {
        lemma_assoc_map_dom(s.drop_last(), key);
        if exists|j: int| 0 <= j < s.len() && (#[trigger] s[j]).0 == key {
            let j = choose|j: int| 0 <= j < s.len() && (#[trigger] s[j]).0 == key;
            if j < s.len() - 1 {
                assert(s.drop_last()[j] == s[j]);
            }
        }
        if exists|j: int| 0 <= j < s.drop_last().len() && (#[trigger] s.drop_last()[j]).0 == key {
            let j = choose|j: int| 0 <= j < s.drop_last().len() && (#[trigger] s.drop_last()[j]).0
                == key;
            assert(s[j] == s.drop_last()[j]);
        }
    }
}

/// A map from names to values.
pub struct NameMap<V> {
    entries: Vec<(Vec<char>, V)>,
}

impl<V> NameMap<V> {
    pub closed spec fn entries_view(&self) -> Seq<(Seq<char>, V)> {
        self.entries@.map_values(|e: (Vec<char>, V)| (e.0@, e.1))
    }
}

impl<V> View for NameMap<V> {
    type V = Map<Seq<char>, V>;

    closed spec fn view(&self) -> Map<Seq<char>, V> {
        assoc_map(self.entries_view())
    }
}

impl<V: Copy> NameMap<V> {
    /// An empty map.
    pub fn new() -> (r: Self)
        ensures
            r@ == Map::<Seq<char>, V>::empty(),
    {
        let r = NameMap { entries: Vec::new() };
        assert(r.entries_view() =~= Seq::<(Seq<char>, V)>::empty());
        r
    }

    /// Maps `key` to `v`, replacing what it mapped to.
    pub fn insert(&mut self, key: Vec<char>, v: V)
        ensures
            final(self)@ == old(self)@.insert(key@, v),
    {
        let ghost k = key@;
        self.entries.push((key, v));
        assert(self.entries_view() =~= old(self).entries_view().push((k, v)));
        assert(self.entries_view().drop_last() =~= old(self).entries_view());
    }

    /// What `key` maps to.
    pub fn get(&self, key: &[char]) -> (r: Option<V>)
        ensures
            match r {
                Some(v) => self@.dom().contains(key@) && v == self@[key@],
                None => !self@.dom().contains(key@),
            },
    {
        let mut i = self.entries.len();
        let ghost ev = self.entries_view();
        while i > 0
            invariant
                i <= self.entries@.len(),
                ev == self.entries_view(),
                ev.len() == self.entries@.len(),
                forall|k: int| i <= k < ev.len() ==> (#[trigger] ev[k]).0 != key@,
            decreases i,
        {
            assert(ev[i - 1] == (self.entries@[i - 1].0@, self.entries@[i - 1].1));
            if eq_chars(self.entries[i - 1].0.as_slice(), key) {
                proof {
                    lemma_assoc_map_suffix(ev, i as int, key@);
                    assert(ev.take(i as int).drop_last() =~= ev.take(i - 1));
                }
                return Some(self.entries[i - 1].1);
            }
            i = i - 1;
        }
        proof {
            lemma_assoc_map_suffix(ev, 0, key@);
            assert(ev.take(0) =~= Seq::<(Seq<char>, V)>::empty());
        }
        None
    }

    /// Whether `key` is mapped.
    pub fn contains_key(&self, key: &[char]) -> (r: bool)
        ensures
            r == self@.dom().contains(key@),
    {
        match self.get(key) {
            Some(_) => true,
            None => false,
        }
    }

    /// How many names are mapped.
    pub fn len(&self) -> (r: usize)
        ensures
            r == self@.dom().len(),
    {
        let ghost ev = self.entries_view();
        let n = self.entries.len();
        let mut count: usize = 0;
        let mut i: usize = 0;
        assert(ev.take(0) =~= Seq::<(Seq<char>, V)>::empty());
        while i < n
            invariant
                n == self.entries@.len(),
                ev == self.entries_view(),
                ev.len() == n,
                i <= n,
                count <= i,
                count == assoc_map(ev.take(i as int)).dom().len(),
            decreases n - i,
        {
            let key = self.entries[i].0.as_slice();
            assert(ev[i as int].0 == key@);
            let mut seen = false;
            let mut j: usize = 0;
            while j < i
                invariant
                    n == self.entries@.len(),
                    ev == self.entries_view(),
                    ev.len() == n,
                    j <= i,
                    i < n,
                    key@ == ev[i as int].0,
                    seen <==> exists|k: int| 0 <= k < j && (#[trigger] ev[k]).0 == key@,
                decreases i - j,
            {
                assert(ev[j as int].0 == self.entries@[j as int].0@);
                if eq_chars(self.entries[j].0.as_slice(), key) {
                    seen = true;
                }
                j = j + 1;
            }
            let ghost pre = ev.take(i as int);
            proof {
                assert(ev.take(i + 1).drop_last() =~= pre);
                assert(ev.take(i + 1).last() == ev[i as int]);
                lemma_assoc_map_finite(pre);
                lemma_assoc_map_dom(pre, key@);
                if seen {
                    let k = choose|k: int| 0 <= k < i && (#[trigger] ev[k]).0 == key@;
                    assert(pre[k] == ev[k]);
                } else {
                    assert forall|k: int| 0 <= k < pre.len() implies (#[trigger] pre[k]).0 != key@ by {
                        assert(pre[k] == ev[k]);
                    }
                }
                assert(assoc_map(ev.take(i + 1)).dom() == assoc_map(pre).dom().insert(key@));
            }
            if !seen {
                count = count + 1;
            }
            i = i + 1;
        }
        assert(ev.take(n as int) =~= ev);
        count
    }

    /// How many insertions were made.
    pub fn insertions(&self) -> (r: usize)
        ensures
            r == self.entries_view().len(),
    {
        self.entries.len()
    }
}

} // verus!
