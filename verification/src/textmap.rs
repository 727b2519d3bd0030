//! Maps from names to texts, such as the evidence behind a check.
use vstd::prelude::*;

use crate::text::same;

verus! {

/// A map from names to texts, as a list of pairs. It is valid where it holds each
/// name once; a list that `insert` built does, in the order in which the names
/// were first given.
#[derive(Clone, Debug, Default, PartialEq)]
pub struct TextMap {
    pub entries: Vec<(String, String)>,
}

/// The map that a list of pairs stands for; the last pair with a name counts.
pub open spec fn pairs_map(entries: Seq<(String, String)>) -> Map<Seq<char>, Seq<char>>
    decreases entries.len(),
{
    if entries.len() == 0 {
        Map::empty()
    } else {
        pairs_map(entries.drop_last()).insert(entries.last().0@, entries.last().1@)
    }
}

/// Whether no name occurs twice.
pub open spec fn distinct_names(entries: Seq<(String, String)>) -> bool {
    forall|i: int, j: int|
        0 <= i < j < entries.len() ==> (#[trigger] entries[i]).0@ != (#[trigger] entries[j]).0@
}

/// A pair that no later pair of the same name follows gives the value.
pub proof fn lemma_last_pair(entries: Seq<(String, String)>, i: int)
    requires
        0 <= i < entries.len(),
        forall|j: int| i < j < entries.len() ==> (#[trigger] entries[j]).0@ != entries[i].0@,
    ensures
        pairs_map(entries).contains_key(entries[i].0@),
        pairs_map(entries)[entries[i].0@] == entries[i].1@,
    decreases entries.len(),
{
    if i < entries.len() - 1 {
        lemma_last_pair(entries.drop_last(), i);
    }
}

/// A name of the map is that of a pair.
pub proof fn lemma_key_has_pair(entries: Seq<(String, String)>, k: Seq<char>)
    requires
        pairs_map(entries).contains_key(k),
    ensures
        exists|j: int| 0 <= j < entries.len() && (#[trigger] entries[j]).0@ == k,
{
    if forall|j: int| 0 <= j < entries.len() ==> (#[trigger] entries[j]).0@ != k {
        lemma_no_pair(entries, k);
    }
}

proof fn lemma_no_pair(entries: Seq<(String, String)>, k: Seq<char>)
    requires
        forall|j: int| 0 <= j < entries.len() ==> (#[trigger] entries[j]).0@ != k,
    ensures
        !pairs_map(entries).contains_key(k),
    decreases entries.len(),
{
    if entries.len() > 0 {
        assert(entries[entries.len() - 1].0@ != k);
        lemma_no_pair(entries.drop_last(), k);
    }
}

proof fn lemma_pairs_map_update(entries: Seq<(String, String)>, i: int, v: (String, String))
    requires
        0 <= i < entries.len(),
        v.0@ == entries[i].0@,
        forall|j: int| i < j < entries.len() ==> (#[trigger] entries[j]).0@ != v.0@,
    ensures
        pairs_map(entries.update(i, v)) == pairs_map(entries).insert(v.0@, v.1@),
    decreases entries.len(),
{
    let front = entries.drop_last();
    if i == entries.len() - 1 {
        assert(entries.update(i, v).drop_last() =~= front);
        assert(pairs_map(entries.update(i, v)) =~= pairs_map(entries).insert(v.0@, v.1@));
    } else {
        lemma_pairs_map_update(front, i, v);
        assert(entries.update(i, v).drop_last() =~= front.update(i, v));
        assert(entries[entries.len() - 1].0@ != v.0@);
        assert(pairs_map(entries.update(i, v)) =~= pairs_map(entries).insert(v.0@, v.1@));
    }
}

impl View for TextMap {
    type V = Map<Seq<char>, Seq<char>>;

    open spec fn view(&self) -> Map<Seq<char>, Seq<char>> {
        pairs_map(self.entries@)
    }
}

impl TextMap {
    /// No name occurs twice.
    pub open spec fn wf(self) -> bool {
        distinct_names(self.entries@)
    }

    pub fn new() -> (r: Self)
        ensures
            r.wf(),
            r@ == Map::<Seq<char>, Seq<char>>::empty(),
            r.entries@.len() == 0,
    {
        TextMap { entries: Vec::new() }
    }

    /// Whether no name occurs twice.
    pub fn is_valid(&self) -> (r: bool)
        ensures
            r == self.wf(),
    {
        let n = self.entries.len();
        let mut i: usize = 0;
        while i < n
            invariant
                i <= n,
                n == self.entries.len(),
                forall|a: int, b: int|
                    0 <= a < b < i ==> (#[trigger] self.entries@[a]).0@ != (
                    #[trigger] self.entries@[b]).0@,
            decreases n - i,
        {
            let mut j: usize = 0;
            while j < i
                invariant
                    j <= i < n,
                    n == self.entries.len(),
                    forall|a: int| 0 <= a < j ==> (#[trigger] self.entries@[a]).0@ != self.entries@[i as int].0@,
                decreases i - j,
            {
                if same(self.entries[j].0.as_str(), self.entries[i].0.as_str()) {
                    return false;
                }
                j += 1;
            }
            i += 1;
        }
        true
    }

    /// Gives a name a value, in place of the one that it had.
    pub fn insert(&mut self, key: String, value: String)
        ensures
            final(self)@ == old(self)@.insert(key@, value@),
            old(self).wf() ==> final(self).wf(),
    {
        let n = self.entries.len();
        let mut i: usize = n;
        while i > 0
            invariant
                i <= n,
                n == self.entries.len(),
                self.entries@ == old(self).entries@,
                forall|j: int| i <= j < n ==> (#[trigger] self.entries@[j]).0@ != key@,
            decreases i,
        {
            i -= 1;
            if same(self.entries[i].0.as_str(), key.as_str()) {
                let ghost before = self.entries@;
                let entry = (key, value);
                proof {
                    lemma_pairs_map_update(before, i as int, entry);
                    let after = before.update(i as int, entry);
                    if distinct_names(before) {
                        assert forall|a: int, b: int| 0 <= a < b < after.len() implies (
                        #[trigger] after[a]).0@ != (#[trigger] after[b]).0@ by {
                            assert(before[a].0@ != before[b].0@);
                        }
                    }
                }
                self.entries.set(i, entry);
                return;
            }
        }
        let ghost before = self.entries@;
        self.entries.push((key, value));
        assert(self.entries@.drop_last() =~= before);
    }

    /// The value of a name.
    pub fn get(&self, key: &str) -> (r: Option<&str>)
        ensures
            match r {
                Some(v) => self@.contains_key(key@) && self@[key@] == v@,
                None => !self@.contains_key(key@),
            },
    {
        let mut i: usize = self.entries.len();
        while i > 0
            invariant
                i <= self.entries.len(),
                forall|j: int|
                    i <= j < self.entries.len() ==> (#[trigger] self.entries@[j]).0@ != key@,
            decreases i,
        {
            i -= 1;
            if same(self.entries[i].0.as_str(), key) {
                proof {
                    lemma_last_pair(self.entries@, i as int);
                }
                return Some(self.entries[i].1.as_str());
            }
        }
        proof {
            lemma_no_pair(self.entries@, key@);
        }
        None
    }
}

} // verus!
