//! Per-file play counts, keyed by the file's path text.
use vstd::prelude::*;

verus! {

/// A map from a track's path to the number of times it was played.
/// Each path occurs at most once.
pub struct PlayCounts {
    entries: Vec<(String, u32)>,
}

/// Whether no two entries share a path.
pub open spec fn keys_unique(s: Seq<(String, u32)>) -> bool {
    forall|i: int, j: int|
        0 <= i < s.len() && 0 <= j < s.len() && i != j ==> #[trigger] s[i].0@ != #[trigger] s[j].0@
}

/// Whether some entry has path `k`.
pub open spec fn has_key(s: Seq<(String, u32)>, k: Seq<char>) -> bool {
    exists|i: int| 0 <= i < s.len() && #[trigger] s[i].0@ == k
}

/// The map that a list of entries with unique paths stands for.
pub open spec fn entries_map(s: Seq<(String, u32)>) -> Map<Seq<char>, u32> {
    Map::new(
        |k: Seq<char>| has_key(s, k),
        |k: Seq<char>| s[choose|i: int| 0 <= i < s.len() && #[trigger] s[i].0@ == k].1,
    )
}

proof fn lemma_entry_value(s: Seq<(String, u32)>, i: int)
    requires
        keys_unique(s),
        0 <= i < s.len(),
    ensures
        entries_map(s).contains_key(s[i].0@),
        entries_map(s)[s[i].0@] == s[i].1,
{
    let k = s[i].0@;
    assert(has_key(s, k));
    let j = choose|j: int| 0 <= j < s.len() && #[trigger] s[j].0@ == k;
    assert(j == i);
}

impl View for PlayCounts {
    type V = Map<Seq<char>, u32>;

    closed spec fn view(&self) -> Map<Seq<char>, u32> {
        entries_map(self.entries@)
    }
}

impl PlayCounts {
    #[verifier::type_invariant]
    closed spec fn unique(self) -> bool {
        keys_unique(self.entries@)
    }

    /// No play counts.
    pub fn new() -> (r: PlayCounts)
        ensures
            r@ == Map::<Seq<char>, u32>::empty(),
    {
        let r = PlayCounts { entries: Vec::new() };
        assert(r@ =~= Map::<Seq<char>, u32>::empty());
        r
    }

    /// The number of paths with a count.
    pub fn len(&self) -> (r: usize)
        ensures
            r == self@.dom().len(),
    {
        proof {
            use_type_invariant(self);
            self.lemma_len();
        }
        self.entries.len()
    }

    proof fn lemma_len(&self)
        requires
            keys_unique(self.entries@),
        ensures
            self@.dom().len() == self.entries@.len(),
            self@.dom().finite(),
    {
        let s = self.entries@;
        let keys = s.map_values(|e: (String, u32)| e.0@);
        assert(keys.no_duplicates()) by {
            assert forall|i: int, j: int| 0 <= i < keys.len() && 0 <= j < keys.len() && i != j implies keys[i] != keys[j] by {
                assert(s[i].0@ != s[j].0@);
            }
        }
        assert(self@.dom() =~= keys.to_set()) by {
            assert forall|k: Seq<char>| self@.dom().contains(k) implies keys.to_set().contains(k) by {
                let i = choose|i: int| 0 <= i < s.len() && #[trigger] s[i].0@ == k;
                assert(keys[i] == k);
            }
            assert forall|k: Seq<char>| keys.to_set().contains(k) implies self@.dom().contains(k) by {
                let i = choose|i: int| 0 <= i < keys.len() && keys[i] == k;
                assert(s[i].0@ == k);
            }
        }
        keys.unique_seq_to_set();
    }

    fn find(&self, key: &str) -> (r: Option<usize>)
        ensures
            r matches Some(i) ==> i < self.entries@.len() && self.entries@[i as int].0@ == key@,
            r is None ==> !has_key(self.entries@, key@),
    {
        let mut i: usize = 0;
        while i < self.entries.len()
            invariant
                i <= self.entries@.len(),
                forall|j: int| 0 <= j < i ==> #[trigger] self.entries@[j].0@ != key@,
            decreases self.entries@.len() - i,
        {
            if crate::text::same_text(self.entries[i].0.as_str(), key) {
                return Some(i);
            }
            i = i + 1;
        }
        None
    }

    /// The count recorded for a path, if any.
    pub fn get(&self, key: &str) -> (r: Option<u32>)
        ensures
            r == (if self@.contains_key(key@) { Some(self@[key@]) } else { None::<u32> }),
    {
        proof {
            use_type_invariant(self);
        }
        match self.find(key) {
            Some(i) => {
                proof {
                    lemma_entry_value(self.entries@, i as int);
                }
                Some(self.entries[i].1)
            },
            None => None,
        }
    }

    /// Records `value` as the count of `key`, replacing an earlier one.
    pub fn insert(&mut self, key: String, value: u32)
        ensures
            final(self)@ == old(self)@.insert(key@, value),
    {
        proof {
            use_type_invariant(&*self);
        }
        let ghost before = self.entries@;
        let found = self.find(key.as_str());
        let mut entries: Vec<(String, u32)> = Vec::new();
        std::mem::swap(&mut entries, &mut self.entries);
        match found {
            Some(i) => {
                let ghost k = key@;
                entries.set(i, (key, value));
                proof {
                    let after = entries@;
                    assert(keys_unique(after)) by {
                        assert forall|a: int, b: int| 0 <= a < after.len() && 0 <= b < after.len() && a != b implies #[trigger] after[a].0@ != #[trigger] after[b].0@ by {
                            if a != i && b != i {
                                assert(before[a].0@ != before[b].0@);
                            } else if a == i {
                                assert(before[i as int].0@ != before[b].0@);
                            } else {
                                assert(before[a].0@ != before[i as int].0@);
                            }
                        }
                    }
                    assert forall|kk: Seq<char>| #[trigger] entries_map(after).contains_key(kk) == entries_map(before).insert(k, value).contains_key(kk) by {
                        if has_key(after, kk) {
                            let j = choose|j: int| 0 <= j < after.len() && #[trigger] after[j].0@ == kk;
                            if j != i {
                                assert(before[j].0@ == kk);
                            }
                        }
                        if has_key(before, kk) {
                            let j = choose|j: int| 0 <= j < before.len() && #[trigger] before[j].0@ == kk;
                            assert(after[j].0@ == kk);
                        }
                        if kk == k {
                            assert(after[i as int].0@ == kk);
                        }
                    }
                    assert forall|kk: Seq<char>| #[trigger] entries_map(after).contains_key(kk) implies entries_map(after)[kk] == entries_map(before).insert(k, value)[kk] by {
                        let j = choose|j: int| 0 <= j < after.len() && #[trigger] after[j].0@ == kk;
                        lemma_entry_value(after, j);
                        if j != i {
                            lemma_entry_value(before, j);
                        }
                    }
                    assert(entries_map(after) =~= entries_map(before).insert(k, value));
                }
                self.entries = entries;
            },
            None => {
                let ghost k = key@;
                entries.push((key, value));
                proof {
                    let after = entries@;
                    let n = before.len() as int;
                    assert(keys_unique(after)) by {
                        assert forall|a: int, b: int| 0 <= a < after.len() && 0 <= b < after.len() && a != b implies #[trigger] after[a].0@ != #[trigger] after[b].0@ by {
                            if a != n && b != n {
                                assert(before[a].0@ != before[b].0@);
                            } else if a == n {
                                assert(before[b].0@ != k);
                            } else {
                                assert(before[a].0@ != k);
                            }
                        }
                    }
                    assert forall|kk: Seq<char>| #[trigger] entries_map(after).contains_key(kk) == entries_map(before).insert(k, value).contains_key(kk) by {
                        if has_key(after, kk) {
                            let j = choose|j: int| 0 <= j < after.len() && #[trigger] after[j].0@ == kk;
                            if j != n {
                                assert(before[j].0@ == kk);
                            }
                        }
                        if has_key(before, kk) {
                            let j = choose|j: int| 0 <= j < before.len() && #[trigger] before[j].0@ == kk;
                            assert(after[j].0@ == kk);
                        }
                        if kk == k {
                            assert(after[n].0@ == kk);
                        }
                    }
                    assert forall|kk: Seq<char>| #[trigger] entries_map(after).contains_key(kk) implies entries_map(after)[kk] == entries_map(before).insert(k, value)[kk] by {
                        let j = choose|j: int| 0 <= j < after.len() && #[trigger] after[j].0@ == kk;
                        lemma_entry_value(after, j);
                        if j != n {
                            lemma_entry_value(before, j);
                        }
                    }
                    assert(entries_map(after) =~= entries_map(before).insert(k, value));
                }
                self.entries = entries;
            },
        }
    }

    /// The recorded paths and counts, one pair per path.
    pub fn to_pairs(&self) -> (r: Vec<(String, u32)>)
        ensures
            r@.len() == self@.dom().len(),
            forall|i: int| 0 <= i < r@.len() ==> #[trigger] self@.contains_key(r@[i].0@) && self@[r@[i].0@] == r@[i].1,
            forall|k: Seq<char>| #[trigger] self@.contains_key(k) ==> exists|i: int| 0 <= i < r@.len() && #[trigger] r@[i].0@ == k,
    {
        proof {
            use_type_invariant(self);
            self.lemma_len();
        }
        let mut r: Vec<(String, u32)> = Vec::new();
        let mut i: usize = 0;
        while i < self.entries.len()
            invariant
                keys_unique(self.entries@),
                i <= self.entries@.len(),
                r@.len() == i,
                forall|j: int| 0 <= j < i ==> #[trigger] r@[j].0@ == self.entries@[j].0@ && r@[j].1 == self.entries@[j].1,
            decreases self.entries@.len() - i,
        {
            let k = self.entries[i].0.clone();
            r.push((k, self.entries[i].1));
            i = i + 1;
        }
        proof {
            assert forall|j: int| 0 <= j < r@.len() implies #[trigger] self@.contains_key(r@[j].0@) && self@[r@[j].0@] == r@[j].1 by {
                lemma_entry_value(self.entries@, j);
            }
            assert forall|k: Seq<char>| #[trigger] self@.contains_key(k) implies exists|j: int| 0 <= j < r@.len() && #[trigger] r@[j].0@ == k by {
                let j = choose|j: int| 0 <= j < self.entries@.len() && #[trigger] self.entries@[j].0@ == k;
                assert(r@[j].0@ == k);
            }
        }
        r
    }
}

} // verus!
