//! A small map from variable names to values, with one entry per name.

use vstd::prelude::*;

use crate::text::same_text;

verus! {

/// The map that a list of assignments builds, later ones overriding
/// earlier ones.
pub open spec fn pairs_map(s: Seq<(String, String)>) -> Map<Seq<char>, Seq<char>>
    decreases s.len(),
{
    if s.len() == 0 {
        Map::empty()
    } else {
        pairs_map(s.drop_last()).insert(s.last().0@, s.last().1@)
    }
}

/// No name occurs twice.
pub open spec fn keys_unique(s: Seq<(String, String)>) -> bool {
    forall|i: int, j: int| 0 <= i < j < s.len() ==> s[i].0@ != s[j].0@
}

proof fn lemma_pairs_map_dom(s: Seq<(String, String)>, k: Seq<char>)
    ensures
        pairs_map(s).dom().finite(),
        pairs_map(s).contains_key(k) <==> exists|i: int| 0 <= i < s.len() && s[i].0@ == k,
    decreases s.len(),
{
    if s.len() > 0 {
        lemma_pairs_map_dom(s.drop_last(), k);
        if pairs_map(s).contains_key(k) && k != s.last().0@ {
            let i = choose|i: int| 0 <= i < s.drop_last().len() && s.drop_last()[i].0@ == k;
            assert(s[i].0@ == k);
        }
        if exists|i: int| 0 <= i < s.len() && s[i].0@ == k {
            let i = choose|i: int| 0 <= i < s.len() && s[i].0@ == k;
            if i < s.len() - 1 {
                assert(s.drop_last()[i].0@ == k);
            }
        }
    }
}

proof fn lemma_pairs_map_at(s: Seq<(String, String)>, i: int)
    requires
        keys_unique(s),
        0 <= i < s.len(),
    ensures
        pairs_map(s).contains_key(s[i].0@),
        pairs_map(s)[s[i].0@] == s[i].1@,
    decreases s.len(),
{
    if i < s.len() - 1 {
        assert(s.drop_last()[i] == s[i]);
        lemma_pairs_map_at(s.drop_last(), i);
    }
}

proof fn lemma_pairs_map_len(s: Seq<(String, String)>)
    requires
        keys_unique(s),
    ensures
        pairs_map(s).len() == s.len(),
    decreases s.len(),
{
    if s.len() > 0 {
        lemma_pairs_map_len(s.drop_last());
        lemma_pairs_map_dom(s.drop_last(), s.last().0@);
        if pairs_map(s.drop_last()).contains_key(s.last().0@) {
            let i = choose|i: int|
                0 <= i < s.drop_last().len() && s.drop_last()[i].0@ == s.last().0@;
            assert(s[i].0@ == s[s.len() - 1].0@);
        }
    }
}

proof fn lemma_pairs_map_update(s: Seq<(String, String)>, i: int, p: (String, String))
    requires
        keys_unique(s),
        0 <= i < s.len(),
        p.0@ == s[i].0@,
    ensures
        keys_unique(s.update(i, p)),
        pairs_map(s.update(i, p)) == pairs_map(s).insert(p.0@, p.1@),
    decreases s.len(),
{
    let t = s.update(i, p);
    if i == s.len() - 1 {
        assert(t.drop_last() =~= s.drop_last());
        lemma_pairs_map_dom(s.drop_last(), p.0@);
        assert(pairs_map(t) =~= pairs_map(s).insert(p.0@, p.1@));
    } else {
        assert(t.drop_last() =~= s.drop_last().update(i, p));
        lemma_pairs_map_update(s.drop_last(), i, p);
        assert(s.last().0@ != p.0@);
        assert(pairs_map(t) =~= pairs_map(s).insert(p.0@, p.1@));
    }
}

/// Variable names and their values, each name once.
pub struct VarMap {
    entries: Vec<(String, String)>,
}

impl View for VarMap {
    type V = Map<Seq<char>, Seq<char>>;

    closed spec fn view(&self) -> Map<Seq<char>, Seq<char>> {
        pairs_map(self.entries@)
    }
}

impl VarMap {
    /// Each name occurs in one entry only.
    pub closed spec fn wf(&self) -> bool {
        keys_unique(self.entries@)
    }

    /// An empty map.
    pub fn new() -> (r: VarMap)
        ensures
            r.wf(),
            r@ == Map::<Seq<char>, Seq<char>>::empty(),
    {
        VarMap { entries: Vec::new() }
    }

    /// The position of the entry for `key`, if there is one.
    fn position(&self, key: &str) -> (r: Option<usize>)
        requires
            self.wf(),
        ensures
            match r {
                Some(i) => i < self.entries@.len() && self.entries@[i as int].0@ == key@,
                None => forall|i: int| 0 <= i < self.entries@.len() ==> self.entries@[i].0@ != key@,
            },
    {
        let mut i: usize = 0;
        while i < self.entries.len()
            invariant
                i <= self.entries@.len(),
                forall|j: int| 0 <= j < i ==> self.entries@[j].0@ != key@,
            decreases self.entries@.len() - i,
        {
            if same_text(self.entries[i].0.as_str(), key) {
                return Some(i);
            }
            i = i + 1;
        }
        None
    }

    /// Set `key` to `value`, replacing any earlier value of `key`.
    pub fn insert(&mut self, key: String, value: String)
        requires
            old(self).wf(),
        ensures
            final(self).wf(),
            final(self)@ == old(self)@.insert(key@, value@),
    {
        match self.position(key.as_str()) {
            Some(i) => {
                proof {
                    lemma_pairs_map_update(self.entries@, i as int, (key, value));
                }
                self.entries.set(i, (key, value));
            },
            None => {
                let ghost before = self.entries@;
                self.entries.push((key, value));
                proof {
                    assert(self.entries@.drop_last() =~= before);
                }
            },
        }
    }

    /// The value of `key`, if it has one.
    pub fn get(&self, key: &str) -> (r: Option<&String>)
        requires
            self.wf(),
        ensures
            match r {
                Some(v) => self@.contains_key(key@) && self@[key@] == v@,
                None => !self@.contains_key(key@),
            },
    {
        proof {
            lemma_pairs_map_dom(self.entries@, key@);
        }
        match self.position(key) {
            Some(i) => {
                proof {
                    lemma_pairs_map_at(self.entries@, i as int);
                }
                Some(&self.entries[i].1)
            },
            None => None,
        }
    }

    /// The number of names.
    pub fn len(&self) -> (r: usize)
        requires
            self.wf(),
        ensures
            r == self@.len(),
    {
        proof {
            lemma_pairs_map_len(self.entries@);
        }
        self.entries.len()
    }

    /// The entries, each name once, in the order in which the names first
    /// came.
    pub fn entries(&self) -> (r: &Vec<(String, String)>)
        requires
            self.wf(),
        ensures
            keys_unique(r@),
            pairs_map(r@) == self@,
    {
        &self.entries
    }
}

} // verus!
