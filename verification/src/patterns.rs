//! The pattern-frequency table: for each template key, the number of
//! retained events whose message has that template.

use crate::text::same_chars;
use vstd::prelude::*;

verus! {

/// A template key with its count.
#[derive(Debug, PartialEq, Eq)]
pub struct PatternCount {
    pub key: Vec<char>,
    pub count: usize,
}

/// The index of the first entry for `key`, from index `from` on.
pub open spec fn position_of(entries: Seq<PatternCount>, key: Seq<char>, from: int) -> Option<int>
    decreases entries.len() - from,
{
    if from < 0 || from >= entries.len() {
        None
    } else if entries[from].key@ == key {
        Some(from)
    } else {
        position_of(entries, key, from + 1)
    }
}

/// The count that `entries` holds for `key`; zero where there is no entry
/// for it.
pub open spec fn counted(entries: Seq<PatternCount>, key: Seq<char>) -> nat {
    match position_of(entries, key, 0) {
        Some(i) => entries[i].count as nat,
        None => 0,
    }
}

/// No two entries have the same key.
pub open spec fn distinct_keys(entries: Seq<PatternCount>) -> bool {
    forall|i: int, j: int|
        0 <= i < j < entries.len() ==> (#[trigger] entries[i]).key@ != (#[trigger] entries[j]).key@
}

/// What `position_of` finds is the first entry for the key; it finds one
/// whenever there is one.
pub proof fn lemma_position_of(entries: Seq<PatternCount>, key: Seq<char>, from: int)
    requires
        0 <= from,
    ensures
        match position_of(entries, key, from) {
            Some(i) => from <= i < entries.len() && entries[i].key@ == key && forall|k: int|
                from <= k < i ==> (#[trigger] entries[k]).key@ != key,
            None => forall|k: int|
                from <= k < entries.len() ==> (#[trigger] entries[k]).key@ != key,
        },
    decreases entries.len() - from,
{
    if from < entries.len() && entries[from].key@ != key {
        lemma_position_of(entries, key, from + 1);
    }
}

/// Where keys are distinct, the count for the key of an entry is that of the
/// entry.
pub proof fn lemma_counted_at(entries: Seq<PatternCount>, i: int)
    requires
        distinct_keys(entries),
        0 <= i < entries.len(),
    ensures
        counted(entries, entries[i].key@) == entries[i].count,
{
    lemma_position_of(entries, entries[i].key@, 0);
}

/// The count for a key without an entry is zero.
pub proof fn lemma_counted_absent(entries: Seq<PatternCount>, key: Seq<char>)
    requires
        forall|k: int| 0 <= k < entries.len() ==> (#[trigger] entries[k]).key@ != key,
    ensures
        counted(entries, key) == 0,
{
    lemma_position_of(entries, key, 0);
}

/// The table of template counts. It holds one entry for each key, and none
/// with the count zero.
pub struct PatternTable {
    entries: Vec<PatternCount>,
}

impl PatternTable {
    #[verifier::type_invariant]
    spec fn well_formed(self) -> bool {
        &&& distinct_keys(self.entries@)
        &&& forall|i: int| 0 <= i < self.entries@.len() ==> (#[trigger] self.entries@[i]).count > 0
    }

    /// The count that the table holds for `key`.
    pub closed spec fn count(self, key: Seq<char>) -> nat {
        counted(self.entries@, key)
    }

    /// A table that holds zero for every key.
    pub fn new() -> (r: Self)
        ensures
            forall|key: Seq<char>| #[trigger] r.count(key) == 0,
    {
        PatternTable { entries: Vec::new() }
    }

    /// The index of the entry for `key`.
    fn find(&self, key: &Vec<char>) -> (r: Option<usize>)
        ensures
            match r {
                Some(i) => position_of(self.entries@, key@, 0) == Some(i as int) && i
                    < self.entries.len(),
                None => position_of(self.entries@, key@, 0) is None,
            },
    {
        let mut i: usize = 0;
        while i < self.entries.len()
            invariant
                i <= self.entries.len(),
                position_of(self.entries@, key@, 0) == position_of(self.entries@, key@, i as int),
            decreases self.entries.len() - i,
        {
            if same_chars(&self.entries[i].key, key) {
                return Some(i);
            }
            i += 1;
        }
        None
    }

    /// The count that the table holds for `key`.
    pub fn get(&self, key: &Vec<char>) -> (r: usize)
        ensures
            r == self.count(key@),
    {
        match self.find(key) {
            Some(i) => self.entries[i].count,
            None => 0,
        }
    }

    /// Counts one more for `key`; the counts of the other keys stay.
    pub fn increment(&mut self, key: &Vec<char>)
        requires
            old(self).count(key@) < usize::MAX,
        ensures
            forall|k: Seq<char>|
                #[trigger] final(self).count(k) == old(self).count(k) + if k == key@ {
                    1nat
                } else {
                    0nat
                },
    {
        proof {
            use_type_invariant(&*self);
        }
        let place = self.find(key);
        let ghost before = self.entries@;
        let mut entries: Vec<PatternCount> = Vec::new();
        core::mem::swap(&mut self.entries, &mut entries);
        match place {
            Some(i) => {
                let count: usize = entries[i].count;
                entries.set(i, PatternCount { key: key.clone(), count: count + 1 });
                proof {
                    let after = entries@;
                    lemma_position_of(before, key@, 0);
                    assert(distinct_keys(after)) by {
                        assert forall|a: int, b: int| 0 <= a < b < after.len() implies (
                        #[trigger] after[a]).key@ != (#[trigger] after[b]).key@ by {
                            assert(after[a].key@ == before[a].key@);
                            assert(after[b].key@ == before[b].key@);
                        }
                    }
                    assert forall|k: Seq<char>| counted(after, k) == counted(before, k) + if k
                        == key@ {
                        1nat
                    } else {
                        0nat
                    } by {
                        lemma_position_of(before, k, 0);
                        lemma_position_of(after, k, 0);
                        match position_of(before, k, 0) {
                            Some(j) => {
                                assert(after[j].key@ == k);
                                lemma_counted_at(after, j);
                                lemma_counted_at(before, j);
                            },
                            None => {
                                assert forall|j: int| 0 <= j < after.len() implies (
                                #[trigger] after[j]).key@ != k by {
                                    assert(after[j].key@ == before[j].key@);
                                }
                                lemma_counted_absent(after, k);
                            },
                        }
                    }
                }
            },
            None => {
                entries.push(PatternCount { key: key.clone(), count: 1 });
                proof {
                    let after = entries@;
                    lemma_position_of(before, key@, 0);
                    assert(distinct_keys(after)) by {
                        assert forall|a: int, b: int| 0 <= a < b < after.len() implies (
                        #[trigger] after[a]).key@ != (#[trigger] after[b]).key@ by {
                            assert(after[a] == before[a]);
                            if b < before.len() {
                                assert(after[b] == before[b]);
                            }
                        }
                    }
                    assert forall|k: Seq<char>| counted(after, k) == counted(before, k) + if k
                        == key@ {
                        1nat
                    } else {
                        0nat
                    } by {
                        lemma_position_of(before, k, 0);
                        match position_of(before, k, 0) {
                            Some(j) => {
                                assert(after[j] == before[j]);
                                lemma_counted_at(after, j);
                                lemma_counted_at(before, j);
                            },
                            None => {
                                if k == key@ {
                                    lemma_counted_at(after, before.len() as int);
                                } else {
                                    assert forall|j: int| 0 <= j < after.len() implies (
                                    #[trigger] after[j]).key@ != k by {
                                        if j < before.len() {
                                            assert(after[j] == before[j]);
                                        }
                                    }
                                    lemma_counted_absent(after, k);
                                }
                            },
                        }
                    }
                }
            },
        }
        self.entries = entries;
    }

    /// Counts one less for `key`, where its count is above zero; the counts
    /// of the other keys stay.
    pub fn decrement(&mut self, key: &Vec<char>)
        ensures
            forall|k: Seq<char>|
                #[trigger] final(self).count(k) == if k == key@ && old(self).count(k) > 0 {
                    (old(self).count(k) - 1) as nat
                } else {
                    old(self).count(k)
                },
    {
        proof {
            use_type_invariant(&*self);
        }
        let place = self.find(key);
        let ghost before = self.entries@;
        proof {
            lemma_position_of(before, key@, 0);
        }
        match place {
            Some(i) => {
                let mut entries: Vec<PatternCount> = Vec::new();
                core::mem::swap(&mut self.entries, &mut entries);
                let count: usize = entries[i].count;
                if count > 1 {
                    entries.set(i, PatternCount { key: key.clone(), count: count - 1 });
                    proof {
                        let after = entries@;
                        assert(distinct_keys(after)) by {
                            assert forall|a: int, b: int| 0 <= a < b < after.len() implies (
                            #[trigger] after[a]).key@ != (#[trigger] after[b]).key@ by {
                                assert(after[a].key@ == before[a].key@);
                                assert(after[b].key@ == before[b].key@);
                            }
                        }
                        assert forall|k: Seq<char>| counted(after, k) == if k == key@ && counted(
                            before,
                            k,
                        ) > 0 {
                            (counted(before, k) - 1) as nat
                        } else {
                            counted(before, k)
                        } by {
                            lemma_position_of(before, k, 0);
                            match position_of(before, k, 0) {
                                Some(j) => {
                                    assert(after[j].key@ == k);
                                    lemma_counted_at(after, j);
                                    lemma_counted_at(before, j);
                                },
                                None => {
                                    assert forall|j: int| 0 <= j < after.len() implies (
                                    #[trigger] after[j]).key@ != k by {
                                        assert(after[j].key@ == before[j].key@);
                                    }
                                    lemma_counted_absent(after, k);
                                },
                            }
                        }
                    }
                } else {
                    entries.remove(i);
                    proof {
                        let after = entries@;
                        assert forall|j: int| 0 <= j < after.len() implies #[trigger] after[j]
                            == before[if j < i {
                            j
                        } else {
                            j + 1
                        }] by {}
                        assert(distinct_keys(after)) by {
                            assert forall|a: int, b: int| 0 <= a < b < after.len() implies (
                            #[trigger] after[a]).key@ != (#[trigger] after[b]).key@ by {
                                let a0 = if a < i {
                                    a
                                } else {
                                    a + 1
                                };
                                let b0 = if b < i {
                                    b
                                } else {
                                    b + 1
                                };
                                assert(after[a] == before[a0]);
                                assert(after[b] == before[b0]);
                            }
                        }
                        assert forall|k: Seq<char>| counted(after, k) == if k == key@ && counted(
                            before,
                            k,
                        ) > 0 {
                            (counted(before, k) - 1) as nat
                        } else {
                            counted(before, k)
                        } by {
                            lemma_position_of(before, k, 0);
                            lemma_counted_at(before, i as int);
                            match position_of(before, k, 0) {
                                Some(j) => {
                                    if j == i {
                                        assert forall|m: int| 0 <= m < after.len() implies (
                                        #[trigger] after[m]).key@ != k by {
                                            let m0 = if m < i {
                                                m
                                            } else {
                                                m + 1
                                            };
                                            assert(after[m] == before[m0]);
                                        }
                                        lemma_counted_absent(after, k);
                                    } else {
                                        let j1 = if j < i {
                                            j
                                        } else {
                                            j - 1
                                        };
                                        assert(after[j1] == before[j]);
                                        lemma_counted_at(after, j1);
                                        lemma_counted_at(before, j);
                                    }
                                },
                                None => {
                                    assert forall|m: int| 0 <= m < after.len() implies (
                                    #[trigger] after[m]).key@ != k by {
                                        let m0 = if m < i {
                                            m
                                        } else {
                                            m + 1
                                        };
                                        assert(after[m] == before[m0]);
                                    }
                                    lemma_counted_absent(after, k);
                                },
                            }
                        }
                    }
                }
                self.entries = entries;
            },
            None => {},
        }
    }
}

} // verus!
