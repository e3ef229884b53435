//! Counters keyed by name: how many errors fell in each category, each
//! test, each server.  Names are held once each, in the order they were
//! first counted.

use crate::text::str_eq;
use vstd::prelude::*;

verus! {

/// Counts keyed by name.
#[derive(Debug)]
pub struct NamedCounts {
    entries: Vec<(String, u64)>,
}

/// The name of an entry.
pub open spec fn entry_name(e: (String, u64)) -> Seq<char> {
    e.0@
}

impl NamedCounts {
    /// The entries, in the order their names were first counted.
    pub closed spec fn entries(&self) -> Seq<(String, u64)> {
        self.entries@
    }

    /// No name occurs twice.
    pub open spec fn wf(&self) -> bool {
        forall|i: int, j: int|
            0 <= i < j < self.entries().len() ==> entry_name(#[trigger] self.entries()[i])
                != entry_name(#[trigger] self.entries()[j])
    }

    /// Whether `name` has been counted.
    pub open spec fn has(&self, name: Seq<char>) -> bool {
        exists|i: int| 0 <= i < self.entries().len() && entry_name(#[trigger] self.entries()[i]) == name
    }

    /// The count of `name` (zero when it was never counted).
    pub open spec fn count(&self, name: Seq<char>) -> nat {
        if self.has(name) {
            let i = choose|i: int|
                0 <= i < self.entries().len() && entry_name(#[trigger] self.entries()[i]) == name;
            self.entries()[i].1 as nat
        } else {
            0
        }
    }

    /// No counts.
    pub fn new() -> (r: Self)
        ensures
            r.wf(),
            r.entries().len() == 0,
            forall|n: Seq<char>| !r.has(n),
    {
        NamedCounts { entries: Vec::new() }
    }

    /// How many names have been counted.
    pub fn len(&self) -> (r: usize)
        ensures
            r == self.entries().len(),
    {
        self.entries.len()
    }

    /// The entries as (name, count) pairs.
    pub fn to_vec(&self) -> (r: Vec<(String, u64)>)
        ensures
            r@ == self.entries(),
    {
        let mut r: Vec<(String, u64)> = Vec::new();
        let mut i: usize = 0;
        while i < self.entries.len()
            invariant
                i <= self.entries@.len(),
                r@ == self.entries@.subrange(0, i as int),
            decreases self.entries@.len() - i,
        {
            let n = self.entries[i].0.clone();
            r.push((n, self.entries[i].1));
            assert(r@ =~= self.entries@.subrange(0, i + 1));
            i = i + 1;
        }
        assert(r@ =~= self.entries@);
        r
    }

    /// The position of `name` among the entries.
    fn position(&self, name: &str) -> (r: Option<usize>)
        requires
            self.wf(),
        ensures
            match r {
                Some(i) => i < self.entries().len() && entry_name(self.entries()[i as int])
                    == name@,
                None => !self.has(name@),
            },
    {
        let mut i: usize = 0;
        while i < self.entries.len()
            invariant
                i <= self.entries@.len(),
                forall|k: int| 0 <= k < i ==> entry_name(#[trigger] self.entries@[k]) != name@,
            decreases self.entries@.len() - i,
        {
            if str_eq(self.entries[i].0.as_str(), name) {
                return Some(i);
            }
            i = i + 1;
        }
        None
    }

    /// The count of `name`.
    pub fn get(&self, name: &str) -> (r: u64)
        requires
            self.wf(),
        ensures
            r == self.count(name@),
    {
        match self.position(name) {
            Some(i) => {
                proof {
                    let j = choose|j: int|
                        0 <= j < self.entries().len() && entry_name(#[trigger] self.entries()[j])
                            == name@;
                    assert(i == j);
                }
                self.entries[i].1
            },
            None => 0,
        }
    }

    /// Counts one more occurrence of `name`; every other count stays.
    pub fn increment(&mut self, name: &str)
        requires
            old(self).wf(),
            old(self).count(name@) < u64::MAX,
        ensures
            final(self).wf(),
            final(self).count(name@) == old(self).count(name@) + 1,
            forall|n: Seq<char>| n != name@ ==> final(self).count(n) == old(self).count(n),
            forall|n: Seq<char>| final(self).has(n) == (old(self).has(n) || n == name@),
    {
        let ghost before = old(self).entries();
        match self.position(name) {
            Some(i) => {
                proof {
                    let j = choose|j: int|
                        0 <= j < before.len() && entry_name(#[trigger] before[j]) == name@;
                    assert(i == j);
                }
                let c = self.entries[i].1;
                let k = self.entries[i].0.clone();
                self.entries.set(i, (k, c + 1));
                proof {
                    assert(entry_name(self.entries@[i as int]) == name@);
                    assert forall|n: Seq<char>| #[trigger] self.has(n) == (exists|x: int|
                        0 <= x < before.len() && entry_name(before[x]) == n) by {
                        if self.has(n) {
                            let x = choose|x: int|
                                0 <= x < self.entries().len() && entry_name(
                                    #[trigger] self.entries()[x],
                                ) == n;
                            assert(entry_name(before[x]) == n);
                        }
                        if exists|x: int| 0 <= x < before.len() && entry_name(before[x]) == n {
                            let x = choose|x: int|
                                0 <= x < before.len() && entry_name(before[x]) == n;
                            assert(entry_name(self.entries()[x]) == n);
                        }
                    }
                    assert forall|n: Seq<char>| n != name@ implies #[trigger] self.count(n)
                        == old(self).count(n) by {
                        if old(self).has(n) {
                            let x = choose|x: int|
                                0 <= x < before.len() && entry_name(#[trigger] before[x]) == n;
                            let y = choose|y: int|
                                0 <= y < self.entries().len() && entry_name(
                                    #[trigger] self.entries()[y],
                                ) == n;
                            assert(entry_name(self.entries()[x]) == n);
                            assert(x == y);
                        }
                    }
                    let y = choose|y: int|
                        0 <= y < self.entries().len() && entry_name(#[trigger] self.entries()[y])
                            == name@;
                    assert(y == i);
                }
            },
            None => {
                let k = name.to_string();
                self.entries.push((k, 1));
                proof {
                    let last = before.len() as int;
                    assert(entry_name(self.entries@[last]) == name@);
                    assert forall|n: Seq<char>| #[trigger] self.has(n) == (old(self).has(n) || n
                        == name@) by {
                        if self.has(n) {
                            let x = choose|x: int|
                                0 <= x < self.entries().len() && entry_name(
                                    #[trigger] self.entries()[x],
                                ) == n;
                            if x < last {
                                assert(self.entries()[x] == old(self).entries()[x]);
                                assert(entry_name(old(self).entries()[x]) == n);
                            }
                        }
                        if old(self).has(n) {
                            let x = choose|x: int|
                                0 <= x < before.len() && entry_name(#[trigger] before[x]) == n;
                            assert(entry_name(self.entries()[x]) == n);
                        }
                    }
                    assert forall|n: Seq<char>| n != name@ implies #[trigger] self.count(n)
                        == old(self).count(n) by {
                        if old(self).has(n) {
                            let x = choose|x: int|
                                0 <= x < before.len() && entry_name(#[trigger] before[x]) == n;
                            let y = choose|y: int|
                                0 <= y < self.entries().len() && entry_name(
                                    #[trigger] self.entries()[y],
                                ) == n;
                            assert(entry_name(self.entries()[x]) == n);
                            assert(x == y);
                        }
                    }
                    let y = choose|y: int|
                        0 <= y < self.entries().len() && entry_name(#[trigger] self.entries()[y])
                            == name@;
                    if y < last {
                        assert(self.entries()[y] == old(self).entries()[y]);
                    }
                    assert(y == last);
                }
            },
        }
    }

    /// A name with the largest count, if any name has been counted.
    pub fn most_common(&self) -> (r: Option<String>)
        requires
            self.wf(),
        ensures
            match r {
                Some(n) => self.has(n@) && forall|m: Seq<char>|
                    self.has(m) ==> #[trigger] self.count(m) <= self.count(n@),
                None => forall|m: Seq<char>| !self.has(m),
            },
    {
        if self.entries.len() == 0 {
            assert forall|m: Seq<char>| !self.has(m) by {}
            return None;
        }
        let mut best: usize = 0;
        let mut i: usize = 1;
        while i < self.entries.len()
            invariant
                self.wf(),
                1 <= i <= self.entries@.len(),
                best < i,
                forall|k: int| 0 <= k < i ==> #[trigger] self.entries@[k].1 <= self.entries@[best as int].1,
            decreases self.entries@.len() - i,
        {
            if self.entries[i].1 >= self.entries[best].1 {
                best = i;
            }
            i = i + 1;
        }
        proof {
            let n = entry_name(self.entries()[best as int]);
            let b = choose|y: int|
                0 <= y < self.entries().len() && entry_name(#[trigger] self.entries()[y]) == n;
            assert(b == best);
            assert forall|m: Seq<char>| self.has(m) implies #[trigger] self.count(m) <= self.count(
                n,
            ) by {
                let y = choose|y: int|
                    0 <= y < self.entries().len() && entry_name(#[trigger] self.entries()[y]) == m;
                assert(self.entries@[y].1 <= self.entries@[best as int].1);
            }
        }
        Some(self.entries[best].0.clone())
    }
}

impl Clone for NamedCounts {
    fn clone(&self) -> (r: Self)
        ensures
            r.entries() == self.entries(),
    {
        NamedCounts { entries: self.to_vec() }
    }
}

} // verus!
