//! The samples kept for each interface name.

use vstd::prelude::*;

verus! {

/// The samples of one interface name, oldest first.
struct HistoryEntry {
    name: String,
    samples: Vec<u64>,
}

/// Maps interface names to the samples recorded for them.
///
/// An entry is made when a name is first recorded or inserted. No
/// operation removes an entry or drops a sample.
pub struct HistoryStore {
    entries: Vec<HistoryEntry>,
}

/// The samples that `history` holds for `name`; none if it has no entry.
pub open spec fn samples_of(history: Map<Seq<char>, Seq<u64>>, name: Seq<char>) -> Seq<u64> {
    if history.contains_key(name) {
        history[name]
    } else {
        Seq::empty()
    }
}

/// `history` after one more sample for `name`.
pub open spec fn record_sample(
    history: Map<Seq<char>, Seq<u64>>,
    name: Seq<char>,
    sample: u64,
) -> Map<Seq<char>, Seq<u64>> {
    history.insert(name, samples_of(history, name).push(sample))
}

impl View for HistoryStore {
    type V = Map<Seq<char>, Seq<u64>>;

    closed spec fn view(&self) -> Map<Seq<char>, Seq<u64>> {
        Map::new(
            |name: Seq<char>| self.holds(name),
            |name: Seq<char>| self.entries[self.position(name)].samples@,
        )
    }
}

impl HistoryStore {
    /// No name has two entries.
    #[verifier::type_invariant]
    spec fn names_unique(self) -> bool {
        forall|i: int, j: int|
            0 <= i < j < self.entries.len() ==> self.entries[i].name@ != self.entries[j].name@
    }

    spec fn holds(self, name: Seq<char>) -> bool {
        exists|i: int| 0 <= i < self.entries.len() && self.entries[i].name@ == name
    }

    spec fn position(self, name: Seq<char>) -> int {
        choose|i: int| 0 <= i < self.entries.len() && self.entries[i].name@ == name
    }

    /// A store without entries.
    pub fn new() -> (store: Self)
        ensures
            store@ == Map::<Seq<char>, Seq<u64>>::empty(),
    {
        let store = HistoryStore { entries: Vec::new() };
        assert(store@ =~= Map::<Seq<char>, Seq<u64>>::empty());
        store
    }

    fn find(&self, name: &String) -> (found: Option<usize>)
        ensures
            match found {
                Some(i) => i < self.entries.len() && self.entries[i as int].name@ == name@,
                None => !self.holds(name@),
            },
    {
        let mut i: usize = 0;
        while i < self.entries.len()
            invariant
                i <= self.entries.len(),
                forall|k: int| 0 <= k < i ==> self.entries[k].name@ != name@,
            decreases self.entries.len() - i,
        {
            if self.entries[i].name == *name {
                return Some(i);
            }
            i += 1;
        }
        None
    }

    /// Whether `name` has an entry.
    pub fn contains_key(&self, name: &String) -> (found: bool)
        ensures
            found == self@.contains_key(name@),
    {
        self.find(name).is_some()
    }

    /// The samples recorded for `name`, oldest first.
    pub fn get(&self, name: &String) -> (samples: Option<&Vec<u64>>)
        ensures
            match samples {
                Some(v) => self@.contains_key(name@) && v@ == self@[name@],
                None => !self@.contains_key(name@),
            },
    {
        proof {
            use_type_invariant(self);
        }
        match self.find(name) {
            Some(i) => Some(&self.entries[i].samples),
            None => None,
        }
    }

    proof fn lemma_position(self, i: int)
        requires
            self.names_unique(),
            0 <= i < self.entries.len(),
        ensures
            self.holds(self.entries[i].name@),
            self.position(self.entries[i].name@) == i,
    {
    }

    /// Puts `samples` under `name`. Samples that stood under that name
    /// before are replaced.
    pub fn insert(&mut self, name: String, samples: Vec<u64>)
        ensures
            final(self)@ == old(self)@.insert(name@, samples@),
    {
        proof {
            use_type_invariant(&*self);
        }
        let ghost before = *self;
        let found = self.find(&name);
        let mut entries: Vec<HistoryEntry> = Vec::new();
        core::mem::swap(&mut self.entries, &mut entries);
        match found {
            Some(i) => {
                entries[i].samples = samples;
            },
            None => {
                entries.push(HistoryEntry { name, samples });
            },
        }
        core::mem::swap(&mut self.entries, &mut entries);
        proof {
            let after = *self;
            let target = before@.insert(name@, samples@);
            let at: int = match found {
                Some(i) => i as int,
                None => before.entries.len() as int,
            };
            after.lemma_position(at);
            assert forall|k: Seq<char>| #[trigger] after@.contains_key(k) implies target.contains_key(k) by {
                let j = after.position(k);
                if j != at {
                    before.lemma_position(j);
                }
            }
            assert forall|k: Seq<char>| #[trigger] target.contains_key(k) implies after@.contains_key(k)
                && after@[k] == target[k] by {
                if k != name@ {
                    let j = before.position(k);
                    before.lemma_position(j);
                    after.lemma_position(j);
                }
            }
            assert(after@ =~= target);
        }
    }

    /// Appends `sample` to the samples of `name`. A name without an entry
    /// gets one that holds this sample alone.
    pub fn record(&mut self, name: &String, sample: u64)
        ensures
            final(self)@ == record_sample(old(self)@, name@, sample),
    {
        proof {
            use_type_invariant(&*self);
        }
        let ghost before = *self;
        let found = self.find(name);
        let mut entries: Vec<HistoryEntry> = Vec::new();
        core::mem::swap(&mut self.entries, &mut entries);
        match found {
            Some(i) => {
                entries[i].samples.push(sample);
            },
            None => {
                let mut samples: Vec<u64> = Vec::new();
                samples.push(sample);
                entries.push(HistoryEntry { name: name.clone(), samples });
            },
        }
        core::mem::swap(&mut self.entries, &mut entries);
        proof {
            let after = *self;
            let target = record_sample(before@, name@, sample);
            let at: int = match found {
                Some(i) => i as int,
                None => before.entries.len() as int,
            };
            assert(after.entries[at].name@ == name@);
            assert(after.entries[at].samples@ == samples_of(before@, name@).push(sample)) by {
                if found is Some {
                    before.lemma_position(at);
                }
            }
            after.lemma_position(at);
            assert forall|k: Seq<char>| #[trigger] after@.contains_key(k) implies target.contains_key(k) by {
                let j = after.position(k);
                if j != at {
                    before.lemma_position(j);
                }
            }
            assert forall|k: Seq<char>| #[trigger] target.contains_key(k) implies after@.contains_key(k)
                && after@[k] == target[k] by {
                if k != name@ {
                    let j = before.position(k);
                    before.lemma_position(j);
                    after.lemma_position(j);
                }
            }
            assert(after@ =~= target);
        }
    }
}

} // verus!
