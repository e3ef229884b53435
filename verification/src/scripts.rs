//! The validation scripts available to a test run, by name: a test case
//! refers to scripts by name, and the scripts it names that are known are
//! the ones run for it.  A later script of a name replaces an earlier one.

use crate::test_case::ValidationScript;
use crate::text::str_eq;
use vstd::prelude::*;

verus! {

/// The scripts of a list by name, a later script of a name replacing an
/// earlier one.
pub open spec fn scripts_by_name(s: Seq<ValidationScript>) -> Map<Seq<char>, ValidationScript>
    decreases s.len(),
{
    if s.len() == 0 {
        Map::empty()
    } else {
        scripts_by_name(s.drop_last()).insert(s.last().name@, s.last())
    }
}

/// The known scripts among some names, in the order named.
pub open spec fn scripts_named(m: Map<Seq<char>, ValidationScript>, names: Seq<String>) -> Seq<
    ValidationScript,
>
    decreases names.len(),
{
    if names.len() == 0 {
        Seq::empty()
    } else {
        let rest = scripts_named(m, names.drop_last());
        if m.contains_key(names.last()@) {
            rest.push(m[names.last()@])
        } else {
            rest
        }
    }
}

/// A copy of a script.
fn copy_script(s: &ValidationScript) -> (r: ValidationScript)
    ensures
        r == *s,
{
    ValidationScript {
        name: s.name.clone(),
        language: s.language,
        execution_phase: s.execution_phase,
        required: s.required,
        source: s.source.clone(),
        timeout_ms: s.timeout_ms,
    }
}

/// Scripts held by name.
pub struct ScriptTable {
    entries: Vec<ValidationScript>,
}

impl ScriptTable {
    /// The scripts by name.
    pub closed spec fn view(&self) -> Map<Seq<char>, ValidationScript> {
        Map::new(
            |k: Seq<char>| exists|i: int| 0 <= i < self.entries@.len() && self.entries@[i].name@ == k,
            |k: Seq<char>|
                self.entries@[choose|i: int| 0 <= i < self.entries@.len() && self.entries@[i].name@ == k],
        )
    }

    /// No name is held twice.
    pub closed spec fn wf(&self) -> bool {
        forall|i: int, j: int|
            0 <= i < j < self.entries@.len() ==> (#[trigger] self.entries@[i]).name@
                != (#[trigger] self.entries@[j]).name@
    }

    proof fn lemma_view_at(&self, i: int)
        requires
            self.wf(),
            0 <= i < self.entries@.len(),
        ensures
            self@.contains_key(self.entries@[i].name@),
            self@[self.entries@[i].name@] == self.entries@[i],
    {
        let k = self.entries@[i].name@;
        let j = choose|j: int| 0 <= j < self.entries@.len() && self.entries@[j].name@ == k;
        if j != i {
            if j < i {
                assert(self.entries@[j].name@ != self.entries@[i].name@);
            } else {
                assert(self.entries@[i].name@ != self.entries@[j].name@);
            }
        }
    }

    /// The index of a name, if held.
    fn index_of(&self, name: &str) -> (r: Option<usize>)
        requires
            self.wf(),
        ensures
            match r {
                Some(i) => i < self.entries@.len() && self.entries@[i as int].name@ == name@,
                None => !self@.contains_key(name@),
            },
    {
        let mut i: usize = 0;
        while i < self.entries.len()
            invariant
                i <= self.entries@.len(),
                forall|k: int| 0 <= k < i ==> (#[trigger] self.entries@[k]).name@ != name@,
            decreases self.entries@.len() - i,
        {
            if str_eq(self.entries[i].name.as_str(), name) {
                return Some(i);
            }
            i = i + 1;
        }
        None
    }

    /// How many names are held.
    pub fn len(&self) -> (r: usize)
        requires
            self.wf(),
        ensures
            r == self@.len(),
    {
        proof {
            self.lemma_len();
        }
        self.entries.len()
    }

    proof fn lemma_len(&self)
        requires
            self.wf(),
        ensures
            self@.dom().finite(),
            self@.len() == self.entries@.len(),
    {
        let names = self.entries@.map_values(|s: ValidationScript| s.name@);
        assert forall|k: Seq<char>| #[trigger] self@.dom().contains(k) == names.to_set().contains(k) by {
            if self@.dom().contains(k) {
                let i = choose|i: int| 0 <= i < self.entries@.len() && self.entries@[i].name@ == k;
                assert(names[i] == k);
            }
            if names.contains(k) {
                let i = choose|i: int| 0 <= i < names.len() && names[i] == k;
                assert(self.entries@[i].name@ == k);
            }
        }
        assert(self@.dom() =~= names.to_set());
        assert(names.no_duplicates()) by {
            assert forall|i: int, j: int| 0 <= i < names.len() && 0 <= j < names.len() && i != j
                implies names[i] != names[j] by {
                if i < j {
                    assert(self.entries@[i].name@ != self.entries@[j].name@);
                } else {
                    assert(self.entries@[j].name@ != self.entries@[i].name@);
                }
            }
        }
        names.unique_seq_to_set();
    }

    /// Whether a script of the name is held.
    pub fn contains_key(&self, name: &str) -> (r: bool)
        requires
            self.wf(),
        ensures
            r == self@.contains_key(name@),
    {
        match self.index_of(name) {
            Some(i) => {
                proof {
                    self.lemma_view_at(i as int);
                }
                true
            },
            None => false,
        }
    }

    /// The script of the name, if held.
    pub fn get(&self, name: &str) -> (r: Option<&ValidationScript>)
        requires
            self.wf(),
        ensures
            self@.contains_key(name@) ==> r == Some(&self@[name@]),
            !self@.contains_key(name@) ==> r is None,
    {
        match self.index_of(name) {
            Some(i) => {
                proof {
                    self.lemma_view_at(i as int);
                }
                Some(&self.entries[i])
            },
            None => None,
        }
    }

    /// Holds a script under its name, replacing the one held before.
    fn insert(&mut self, script: ValidationScript)
        requires
            old(self).wf(),
        ensures
            final(self).wf(),
            final(self)@ == old(self)@.insert(script.name@, script),
    {
        let ghost before = self@;
        let ghost k = script.name@;
        match self.index_of(script.name.as_str()) {
            Some(i) => {
                self.entries.set(i, script);
                proof {
                    assert forall|a: int, b: int|
                        0 <= a < b < self.entries@.len() implies (#[trigger] self.entries@[a]).name@
                            != (#[trigger] self.entries@[b]).name@ by {
                        assert(old(self).entries@[a].name@ != old(self).entries@[b].name@);
                    }
                    assert forall|n: Seq<char>| #[trigger] self@.contains_key(n) == before.insert(k, script).contains_key(n) by {
                        if before.contains_key(n) && n != k {
                            let j = choose|j: int| 0 <= j < old(self).entries@.len() && old(self).entries@[j].name@ == n;
                            assert(self.entries@[j].name@ == n);
                        }
                        if self@.contains_key(n) {
                            let j = choose|j: int| 0 <= j < self.entries@.len() && self.entries@[j].name@ == n;
                            if j != i {
                                assert(old(self).entries@[j].name@ == n);
                            }
                        }
                        self.lemma_view_at(i as int);
                    }
                    assert forall|n: Seq<char>| #[trigger] self@.contains_key(n) implies self@[n] == before.insert(k, script)[n] by {
                        let j = choose|j: int| 0 <= j < self.entries@.len() && self.entries@[j].name@ == n;
                        self.lemma_view_at(j);
                        if j != i {
                            old(self).lemma_view_at(j);
                        }
                    }
                    assert(self@ =~= before.insert(k, script));
                }
            },
            None => {
                self.entries.push(script);
                proof {
                    let last = self.entries@.len() - 1;
                    assert forall|a: int, b: int|
                        0 <= a < b < self.entries@.len() implies (#[trigger] self.entries@[a]).name@
                            != (#[trigger] self.entries@[b]).name@ by {
                        if b < last {
                            assert(old(self).entries@[a].name@ != old(self).entries@[b].name@);
                        } else {
                            assert(old(self).entries@[a].name@ == self.entries@[a].name@);
                            if self.entries@[a].name@ == k {
                                old(self).lemma_view_at(a);
                            }
                        }
                    }
                    assert forall|n: Seq<char>| #[trigger] self@.contains_key(n) == before.insert(k, script).contains_key(n) by {
                        if before.contains_key(n) {
                            let j = choose|j: int| 0 <= j < old(self).entries@.len() && old(self).entries@[j].name@ == n;
                            assert(self.entries@[j].name@ == n);
                        }
                        if n == k {
                            assert(self.entries@[last].name@ == n);
                        }
                        if self@.contains_key(n) {
                            let j = choose|j: int| 0 <= j < self.entries@.len() && self.entries@[j].name@ == n;
                            if j != last {
                                assert(old(self).entries@[j].name@ == n);
                            }
                        }
                    }
                    assert forall|n: Seq<char>| #[trigger] self@.contains_key(n) implies self@[n] == before.insert(k, script)[n] by {
                        let j = choose|j: int| 0 <= j < self.entries@.len() && self.entries@[j].name@ == n;
                        self.lemma_view_at(j);
                        if j != last {
                            old(self).lemma_view_at(j);
                        }
                    }
                    assert(self@ =~= before.insert(k, script));
                }
            },
        }
    }
}

/// The validation scripts available to a test run.
pub struct ScriptManager {
    pub available_scripts: ScriptTable,
}

impl ScriptManager {
    /// The manager is well formed.
    pub open spec fn wf(&self) -> bool {
        self.available_scripts.wf()
    }

    /// Holds the scripts by name; a later script of a name replaces an
    /// earlier one.
    pub fn new(scripts: Vec<ValidationScript>) -> (r: Result<Self, crate::test_case::ExecutorError>)
        ensures
            r matches Ok(m) && m.wf() && m.available_scripts@ == scripts_by_name(scripts@),
    {
        let mut table = ScriptTable { entries: Vec::new() };
        proof {
            assert(table@ =~= Map::<Seq<char>, ValidationScript>::empty());
        }
        let mut i: usize = 0;
        while i < scripts.len()
            invariant
                i <= scripts@.len(),
                table.wf(),
                table@ == scripts_by_name(scripts@.subrange(0, i as int)),
            decreases scripts@.len() - i,
        {
            assert(scripts@.subrange(0, i + 1).drop_last() =~= scripts@.subrange(0, i as int));
            table.insert(copy_script(&scripts[i]));
            i = i + 1;
        }
        assert(scripts@.subrange(0, scripts@.len() as int) =~= scripts@);
        Ok(ScriptManager { available_scripts: table })
    }

    /// The known scripts a test case names, in the order it names them.
    pub fn get_scripts_for_test_case(&self, script_refs: &Option<Vec<String>>) -> (r: Vec<
        ValidationScript,
    >)
        requires
            self.wf(),
        ensures
            r@ == match script_refs {
                Some(names) => scripts_named(self.available_scripts@, names@),
                None => Seq::empty(),
            },
    {
        let mut r: Vec<ValidationScript> = Vec::new();
        match script_refs {
            None => r,
            Some(names) => {
                let mut i: usize = 0;
                while i < names.len()
                    invariant
                        self.wf(),
                        i <= names@.len(),
                        r@ == scripts_named(self.available_scripts@, names@.subrange(0, i as int)),
                    decreases names@.len() - i,
                {
                    assert(names@.subrange(0, i + 1).drop_last() =~= names@.subrange(0, i as int));
                    match self.available_scripts.get(names[i].as_str()) {
                        Some(s) => r.push(copy_script(s)),
                        None => {},
                    }
                    i = i + 1;
                }
                assert(names@.subrange(0, names@.len() as int) =~= names@);
                r
            },
        }
    }

    /// Whether the script of the name is known and required.
    pub fn is_script_required(&self, script_name: &str) -> (r: bool)
        requires
            self.wf(),
        ensures
            r == (self.available_scripts@.contains_key(script_name@)
                && self.available_scripts@[script_name@].required),
    {
        match self.available_scripts.get(script_name) {
            Some(s) => s.required,
            None => false,
        }
    }
}

} // verus!
