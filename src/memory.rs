//! The dedup memory: the dedup record of every feed job, by job identifier.
//! It takes no lock of its own; whoever shares it between jobs guards the
//! whole store with one lock, so that a job's record is never read and
//! written by two ticks at once.
use vstd::prelude::*;
use crate::dedup::Id;
use crate::feed::{contains_id, copy_ids};

verus! {

pub struct DedupMemory {
    /// Job identifiers, each once.
    keys: Vec<String>,
    /// The record of the job at the same index.
    records: Vec<Vec<String>>,
}

impl DedupMemory {
    pub closed spec fn wf(&self) -> bool {
        &&& self.keys.len() == self.records.len()
        &&& self.keys.deep_view().no_duplicates()
    }

    /// The record of each job that has one.
    pub closed spec fn view(&self) -> Map<Id, Seq<Id>> {
        let keys = self.keys.deep_view();
        Map::new(
            |k: Id| keys.contains(k),
            |k: Id| self.records.deep_view()[keys.index_of(k)],
        )
    }

    /// A memory that holds no record.
    pub fn new() -> (m: DedupMemory)
        ensures
            m.wf(),
            m.view() == Map::<Id, Seq<Id>>::empty(),
    {
        let m = DedupMemory { keys: Vec::new(), records: Vec::new() };
        assert(m.view() =~= Map::<Id, Seq<Id>>::empty());
        m
    }

    fn position(&self, job: &String) -> (r: Option<usize>)
        requires
            self.wf(),
        ensures
            match r {
                Some(i) => i < self.keys.len() && self.keys.deep_view()[i as int] == job@
                    && self.keys.deep_view().index_of(job@) == i,
                None => !self.keys.deep_view().contains(job@),
            },
    {
        let mut i: usize = 0;
        while i < self.keys.len()
            invariant
                self.wf(),
                i <= self.keys.len(),
                forall|k: int| 0 <= k < i ==> self.keys.deep_view()[k] != job@,
            decreases self.keys.len() - i,
        {
            if self.keys[i] == *job {
                proof {
                    let keys = self.keys.deep_view();
                    assert(keys[i as int] == job@);
                    assert(keys.contains(job@));
                    let x = keys.index_of(job@);
                    assert(keys[x] == job@ && 0 <= x < keys.len());
                    if x != i as int {
                        assert(keys[x] != keys[i as int]);
                    }
                }
                return Some(i);
            }
            i = i + 1;
        }
        None
    }

    /// The record of `job`; an empty one where the memory holds none.
    pub fn get(&self, job: &String) -> (r: Vec<String>)
        requires
            self.wf(),
        ensures
            r.deep_view() == if self.view().contains_key(job@) {
                self.view()[job@]
            } else {
                Seq::empty()
            },
    {
        match self.position(job) {
            Some(i) => copy_ids(&self.records[i]),
            None => {
                let r: Vec<String> = Vec::new();
                assert(r.deep_view() =~= Seq::<Id>::empty());
                r
            },
        }
    }

    /// Whether the memory holds a record for `job`.
    pub fn has(&self, job: &String) -> (r: bool)
        requires
            self.wf(),
        ensures
            r == self.view().contains_key(job@),
    {
        contains_id(&self.keys, job)
    }

    /// Makes `record` the record of `job`, in place of any it had.
    pub fn put(&mut self, job: String, record: Vec<String>)
        requires
            old(self).wf(),
        ensures
            final(self).wf(),
            final(self).view() == old(self).view().insert(job@, record.deep_view()),
    {
        let ghost old_keys = self.keys.deep_view();
        let ghost old_view = self.view();
        let ghost j = job@;
        let ghost rv = record.deep_view();
        match self.position(&job) {
            Some(i) => {
                self.records.set(i, record);
                assert(self.keys.deep_view() == old_keys);
                assert(self.view() =~= old_view.insert(j, rv)) by {
                    assert forall|k: Id| #[trigger] self.view().contains_key(k) implies
                        self.view()[k] == old_view.insert(j, rv)[k] by {
                        let x = old_keys.index_of(k);
                        assert(old_keys[x] == k);
                        if k == j {
                            assert(x == i);
                        } else {
                            assert(x != i);
                        }
                    }
                }
            },
            None => {
                self.keys.push(job);
                self.records.push(record);
                let ghost keys = self.keys.deep_view();
                assert(keys =~= old_keys.push(j));
                assert(keys[old_keys.len() as int] == j);
                assert(self.view() =~= old_view.insert(j, rv)) by {
                    assert forall|k: Id| #[trigger] self.view().contains_key(k) implies
                        self.view()[k] == old_view.insert(j, rv)[k] by {
                        let x = keys.index_of(k);
                        assert(keys[x] == k);
                        if k == j {
                            assert(x == old_keys.len());
                        } else {
                            assert(old_keys[x] == k);
                            assert(old_keys.index_of(k) == x);
                        }
                    }
                    assert forall|k: Id| old_view.insert(j, rv).contains_key(k) implies
                        #[trigger] self.view().contains_key(k) by {
                        if k != j {
                            let x = old_keys.index_of(k);
                            assert(keys[x] == k);
                        }
                    }
                }
            },
        }
    }
}

} // verus!
