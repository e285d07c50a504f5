//! The policy catalog: a persisted mapping from policy id to severity, action
//! kind and duration.
//!
//! The catalog keeps its records sorted by id with no duplicate ids, so one
//! atomic insert both detects an existing id and preserves the listing order;
//! there is no separate check-then-write pair to race against.

use vstd::prelude::*;

use crate::errors::EngineError;
use crate::models::{InfractionModel, Punishment, Severity};

verus! {

/// The catalog of punishment policies, ordered by id ascending.
pub struct Catalog {
    records: Vec<InfractionModel>,
}

impl View for Catalog {
    type V = Seq<InfractionModel>;

    closed spec fn view(&self) -> Seq<InfractionModel> {
        self.records@
    }
}

/// Where a record with this id belongs in an id-sorted sequence: the number
/// of leading records whose id is smaller.
pub open spec fn insert_pos(s: Seq<InfractionModel>, id: int) -> int
    decreases s.len(),
{
    if s.len() == 0 {
        0
    } else if s[0].id < id {
        1 + insert_pos(s.drop_first(), id)
    } else {
        0
    }
}

impl Catalog {
    /// Records are strictly ordered by id (so ids are unique) and every
    /// record is well formed.
    pub open spec fn wf(self) -> bool {
        &&& forall|i: int, j: int|
            0 <= i < j < self@.len() ==> #[trigger] self@[i].id < #[trigger] self@[j].id
        &&& forall|i: int| 0 <= i < self@.len() ==> (#[trigger] self@[i]).wf()
    }

    /// Some record of the catalog carries this id.
    pub open spec fn contains_id(self, id: int) -> bool {
        exists|i: int| 0 <= i < self@.len() && (#[trigger] self@[i]).id == id
    }

    /// The index of the record with this id.
    pub open spec fn index_of(self, id: int) -> int {
        choose|i: int| 0 <= i < self@.len() && (#[trigger] self@[i]).id == id
    }

    /// The record with this id.
    pub open spec fn spec_get(self, id: int) -> InfractionModel {
        self@[self.index_of(id)]
    }

    /// In a well-formed catalog at most one record carries a given id.
    pub proof fn lemma_id_determines_index(self, i: int, j: int)
        requires
            self.wf(),
            0 <= i < self@.len(),
            0 <= j < self@.len(),
            self@[i].id == self@[j].id,
        ensures
            i == j,
    {
    }

    /// An empty catalog.
    pub fn new() -> (c: Catalog)
        ensures
            c.wf(),
            c@ == Seq::<InfractionModel>::empty(),
    {
        Catalog { records: Vec::new() }
    }

    /// The position of the first record whose id is not below `id`; every
    /// record before it is smaller, every record from it on is not.
    fn scan_pos(&self, id: i32) -> (pos: usize)
        requires
            self.wf(),
        ensures
            0 <= pos <= self@.len(),
            pos == insert_pos(self@, id as int),
            forall|k: int| 0 <= k < pos ==> (#[trigger] self@[k]).id < id,
            forall|k: int| pos <= k < self@.len() ==> (#[trigger] self@[k]).id >= id,
    {
        let ghost s = self@;
        let mut pos: usize = 0;
        proof {
            assert(s.skip(0) =~= s);
        }
        while pos < self.records.len() && self.records[pos].id < id
            invariant
                0 <= pos <= s.len(),
                s == self@,
                self.wf(),
                insert_pos(s, id as int) == pos + insert_pos(s.skip(pos as int), id as int),
                forall|k: int| 0 <= k < pos ==> (#[trigger] s[k]).id < id,
            decreases s.len() - pos,
        {
            proof {
                assert(s.skip(pos as int)[0] == s[pos as int]);
                assert(s.skip(pos as int).drop_first() =~= s.skip(pos + 1 as int));
            }
            pos = pos + 1;
        }
        proof {
            if pos < s.len() {
                assert(s.skip(pos as int)[0] == s[pos as int]);
            }
            assert(insert_pos(s.skip(pos as int), id as int) == 0);
            assert(forall|k: int| pos <= k < s.len() ==> (#[trigger] s[k]).id >= id) by {
                assert(forall|k: int|
                    pos < k < s.len() ==> s[pos as int].id < (#[trigger] s[k]).id);
            }
        }
        pos
    }

    /// Create a policy. One atomic insert: fails `AlreadyExists`, changing
    /// nothing, when the id is already present; otherwise the record joins
    /// the catalog at its id-ordered place.
    pub fn create(
        &mut self,
        id: i32,
        severity: Severity,
        punishment: Punishment,
        duration: i32,
    ) -> (r: Result<InfractionModel, EngineError>)
        requires
            old(self).wf(),
            duration >= 0,
        ensures
            final(self).wf(),
            match r {
                Err(e) => {
                    &&& e == EngineError::AlreadyExists
                    &&& old(self).contains_id(id as int)
                    &&& final(self)@ == old(self)@
                },
                Ok(m) => {
                    &&& !old(self).contains_id(id as int)
                    &&& m == (InfractionModel { id, severity, punishment, duration })
                    &&& final(self)@ == old(self)@.insert(insert_pos(old(self)@, id as int), m)
                    &&& final(self).contains_id(id as int)
                    &&& final(self).spec_get(id as int) == m
                },
            },
    {
        let pos = self.scan_pos(id);
        if pos < self.records.len() && self.records[pos].id == id {
            return Err(EngineError::AlreadyExists);
        }
        assert(!self.contains_id(id as int));
        let m = InfractionModel { id, severity, punishment, duration };
        let ghost s = self@;
        self.records.insert(pos, m);
        proof {
            assert forall|i: int, j: int| 0 <= i < j < self@.len() implies #[trigger] self@[i].id
                < #[trigger] self@[j].id by {
                assert(self@ == s.insert(pos as int, m));
                if i < pos {
                    assert(self@[i] == s[i]);
                } else if i > pos {
                    assert(self@[i] == s[i - 1]);
                }
                if j < pos {
                    assert(self@[j] == s[j]);
                } else if j > pos {
                    assert(self@[j] == s[j - 1]);
                }
            }
            assert(self@[pos as int].id == id);
            self.lemma_id_determines_index(pos as int, self.index_of(id as int));
        }
        Ok(m)
    }

    /// Look a policy up by id; fails `NotFound` when it is absent.
    pub fn get(&self, id: i32) -> (r: Result<InfractionModel, EngineError>)
        requires
            self.wf(),
        ensures
            match r {
                Ok(m) => self.contains_id(id as int) && m == self.spec_get(id as int),
                Err(e) => e == EngineError::NotFound && !self.contains_id(id as int),
            },
    {
        let pos = self.scan_pos(id);
        if pos < self.records.len() && self.records[pos].id == id {
            proof {
                self.lemma_id_determines_index(pos as int, self.index_of(id as int));
            }
            Ok(self.records[pos])
        } else {
            assert(!self.contains_id(id as int));
            Err(EngineError::NotFound)
        }
    }

    /// Replace the record with this id; fails `NotFound`, changing nothing,
    /// when it is absent.
    pub fn update(
        &mut self,
        id: i32,
        severity: Severity,
        punishment: Punishment,
        duration: i32,
    ) -> (r: Result<(), EngineError>)
        requires
            old(self).wf(),
            duration >= 0,
        ensures
            final(self).wf(),
            match r {
                Err(e) => {
                    &&& e == EngineError::NotFound
                    &&& !old(self).contains_id(id as int)
                    &&& final(self)@ == old(self)@
                },
                Ok(()) => {
                    &&& old(self).contains_id(id as int)
                    &&& final(self)@ == old(self)@.update(
                        old(self).index_of(id as int),
                        InfractionModel { id, severity, punishment, duration },
                    )
                },
            },
    {
        let pos = self.scan_pos(id);
        if pos < self.records.len() && self.records[pos].id == id {
            proof {
                self.lemma_id_determines_index(pos as int, self.index_of(id as int));
            }
            self.records[pos] = InfractionModel { id, severity, punishment, duration };
            Ok(())
        } else {
            assert(!self.contains_id(id as int));
            Err(EngineError::NotFound)
        }
    }

    /// Remove the record with this id, reporting how many records went: one
    /// when the id was present, zero when it was not. Never an error.
    pub fn delete(&mut self, id: i32) -> (n: u64)
        requires
            old(self).wf(),
        ensures
            final(self).wf(),
            n == if old(self).contains_id(id as int) { 1int } else { 0int },
            old(self).contains_id(id as int) ==> final(self)@ == old(self)@.remove(
                old(self).index_of(id as int),
            ),
            !old(self).contains_id(id as int) ==> final(self)@ == old(self)@,
            !final(self).contains_id(id as int),
    {
        let pos = self.scan_pos(id);
        if pos < self.records.len() && self.records[pos].id == id {
            proof {
                self.lemma_id_determines_index(pos as int, self.index_of(id as int));
            }
            let ghost s = self@;
            self.records.remove(pos);
            proof {
                assert forall|i: int, j: int| 0 <= i < j < self@.len() implies #[trigger] self@[i].id
                    < #[trigger] self@[j].id by {
                    if i >= pos {
                        assert(self@[i] == s[i + 1]);
                    }
                    if j >= pos {
                        assert(self@[j] == s[j + 1]);
                    }
                }
                assert forall|i: int| 0 <= i < self@.len() implies (#[trigger] self@[i]).id != id by {
                    if i >= pos {
                        assert(self@[i] == s[i + 1]);
                    }
                }
            }
            1
        } else {
            assert(!self.contains_id(id as int));
            0
        }
    }

    /// All records, ordered by id ascending.
    pub fn list(&self) -> (v: Vec<InfractionModel>)
        requires
            self.wf(),
        ensures
            v@ == self@,
    {
        let mut v: Vec<InfractionModel> = Vec::new();
        let mut i: usize = 0;
        while i < self.records.len()
            invariant
                0 <= i <= self@.len(),
                v@ == self@.take(i as int),
            decreases self@.len() - i,
        {
            v.push(self.records[i]);
            assert(self@.take(i + 1 as int).drop_last() =~= self@.take(i as int));
            i = i + 1;
        }
        assert(self@.take(self@.len() as int) =~= self@);
        v
    }

    /// How many policies the catalog holds.
    pub fn len(&self) -> (n: usize)
        ensures
            n == self@.len(),
    {
        self.records.len()
    }
}

} // verus!
