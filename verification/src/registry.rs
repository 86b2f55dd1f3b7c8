use crate::clock::Timestamp;
use vstd::prelude::*;

verus! {

#[derive(Debug, Clone, Copy, PartialEq, Eq, Structural)]
pub enum WorkerStatus {
    Healthy,
    Draining,
}

/// What is known of a worker.
#[derive(Debug, PartialEq, Eq)]
pub struct WorkerRecord {
    pub worker_id: String,
    pub status: WorkerStatus,
    pub updated_at: Timestamp,
}

/// What a worker record says.
#[verifier::ext_equal]
pub struct WorkerView {
    pub worker_id: Seq<char>,
    pub status: WorkerStatus,
    pub updated_at: Timestamp,
}

impl View for WorkerRecord {
    type V = WorkerView;

    open spec fn view(&self) -> WorkerView {
        WorkerView {
            worker_id: self.worker_id@,
            status: self.status,
            updated_at: self.updated_at,
        }
    }
}

impl Clone for WorkerRecord {
    fn clone(&self) -> (r: Self)
        ensures
            r == *self,
    {
        WorkerRecord {
            worker_id: self.worker_id.clone(),
            status: self.status,
            updated_at: self.updated_at,
        }
    }
}

/// The records of workers, by the id of the worker.
pub type Workers = Map<Seq<char>, WorkerView>;

spec fn by_id(records: Seq<WorkerRecord>) -> Workers
    decreases records.len(),
{
    if records.len() == 0 {
        Map::empty()
    } else {
        by_id(records.drop_last()).insert(records.last().worker_id@, records.last()@)
    }
}

spec fn distinct_ids(records: Seq<WorkerRecord>) -> bool {
    forall|i: int, j: int|
        0 <= i < j < records.len() ==> (#[trigger] records[i]).worker_id@ != (
        #[trigger] records[j]).worker_id@
}

proof fn lemma_by_id(records: Seq<WorkerRecord>)
    requires
        distinct_ids(records),
    ensures
        forall|i: int|
            0 <= i < records.len() ==> by_id(records).dom().contains(
                (#[trigger] records[i]).worker_id@,
            ) && by_id(records)[records[i].worker_id@] == records[i]@,
        forall|id: Seq<char>| #[trigger]
            by_id(records).dom().contains(id) ==> exists|i: int|
                0 <= i < records.len() && (#[trigger] records[i]).worker_id@ == id,
    decreases records.len(),
{
    if records.len() > 0 {
        let earlier = records.drop_last();
        lemma_by_id(earlier);
        assert forall|i: int| 0 <= i < records.len() implies by_id(records).dom().contains(
            (#[trigger] records[i]).worker_id@,
        ) && by_id(records)[records[i].worker_id@] == records[i]@ by {
            if i < records.len() - 1 {
                assert(earlier[i] == records[i]);
            }
        }
        assert forall|id: Seq<char>| #[trigger] by_id(records).dom().contains(
            id,
        ) implies exists|i: int|
            0 <= i < records.len() && (#[trigger] records[i]).worker_id@ == id by {
            if id == records.last().worker_id@ {
                assert(records[records.len() - 1].worker_id@ == id);
            } else {
                assert(by_id(earlier).dom().contains(id));
                let i = choose|i: int|
                    0 <= i < earlier.len() && (#[trigger] earlier[i]).worker_id@ == id;
                assert(records[i].worker_id@ == id);
            }
        }
    }
}

/// `listed` holds each of the workers once, in some order.
pub open spec fn lists_workers(listed: Seq<WorkerRecord>, workers: Workers) -> bool {
    &&& forall|i: int|
        0 <= i < listed.len() ==> workers.dom().contains((#[trigger] listed[i]).worker_id@)
            && workers[listed[i].worker_id@] == listed[i]@
    &&& forall|id: Seq<char>| #[trigger]
        workers.dom().contains(id) ==> exists|i: int|
            0 <= i < listed.len() && (#[trigger] listed[i]).worker_id@ == id
    &&& forall|i: int, j: int|
        0 <= i < j < listed.len() ==> (#[trigger] listed[i]).worker_id@ != (
        #[trigger] listed[j]).worker_id@
}

/// The workers that are known. No two records have the same id.
#[derive(Debug)]
pub struct WorkerRegistry {
    records: Vec<WorkerRecord>,
}

impl View for WorkerRegistry {
    type V = Workers;

    closed spec fn view(&self) -> Workers {
        by_id(self.records@)
    }
}

impl WorkerRegistry {
    #[verifier::type_invariant]
    spec fn ids_differ(self) -> bool {
        distinct_ids(self.records@)
    }

    pub fn new() -> (r: Self)
        ensures
            r@ == Map::<Seq<char>, WorkerView>::empty(),
    {
        WorkerRegistry { records: Vec::new() }
    }

    fn position(&self, worker_id: &String) -> (r: Option<usize>)
        ensures
            match r {
                Some(i) => i < self.records@.len() && self.records@[i as int].worker_id@
                    == worker_id@,
                None => !self@.dom().contains(worker_id@),
            },
    {
        proof {
            use_type_invariant(self);
            lemma_by_id(self.records@);
        }
        let mut i: usize = 0;
        while i < self.records.len()
            invariant
                i <= self.records.len(),
                forall|k: int|
                    0 <= k < i ==> (#[trigger] self.records@[k]).worker_id@ != worker_id@,
            decreases self.records.len() - i,
        {
            if self.records[i].worker_id == *worker_id {
                return Some(i);
            }
            i = i + 1;
        }
        None
    }

    /// Files a record, in place of an earlier one of the same worker.
    pub fn file(&mut self, record: WorkerRecord)
        ensures
            final(self)@ == old(self)@.insert(record.worker_id@, record@),
    {
        proof {
            use_type_invariant(&*self);
            lemma_by_id(self.records@);
        }
        let found = self.position(&record.worker_id);
        let mut records: Vec<WorkerRecord> = Vec::new();
        std::mem::swap(&mut records, &mut self.records);
        let ghost before = records@;
        let ghost filed = record;
        match found {
            Some(i) => {
                records.set(i, record);
                proof {
                    assert(distinct_ids(records@)) by {
                        assert forall|a: int, b: int| 0 <= a < b < records@.len() implies (
                        #[trigger] records@[a]).worker_id@ != (#[trigger] records@[b]).worker_id@ by {
                            assert(before[a].worker_id@ != before[b].worker_id@);
                            assert(before[i as int].worker_id@ == filed.worker_id@);
                        }
                    }
                    lemma_by_id(records@);
                    lemma_update_by_id(before, i as int, filed);
                }
            },
            None => {
                records.push(record);
                proof {
                    assert(records@.drop_last() =~= before);
                    assert(distinct_ids(records@)) by {
                        assert forall|a: int, b: int| 0 <= a < b < records@.len() implies (
                        #[trigger] records@[a]).worker_id@ != (#[trigger] records@[b]).worker_id@ by {
                            assert(records@[a] == before[a]);
                            assert(by_id(before).dom().contains(before[a].worker_id@));
                            if b < before.len() {
                                assert(records@[b] == before[b]);
                            }
                        }
                    }
                }
            },
        }
        self.records = records;
    }

    /// Gives a known worker a status at `instant`, or returns `None` for one that is not
    /// known.
    pub fn mark(&mut self, worker_id: &String, status: WorkerStatus, instant: Timestamp) -> (r:
        Option<WorkerRecord>)
        ensures
            match r {
                Some(record) => old(self)@.dom().contains(worker_id@) && record@ == (WorkerView {
                    worker_id: worker_id@,
                    status,
                    updated_at: instant,
                }) && final(self)@ == old(self)@.insert(worker_id@, record@),
                None => !old(self)@.dom().contains(worker_id@) && final(self)@ == old(self)@,
            },
    {
        match self.position(worker_id) {
            None => None,
            Some(i) => {
                proof {
                    use_type_invariant(&*self);
                    lemma_by_id(self.records@);
                    assert(self@.dom().contains(self.records@[i as int].worker_id@));
                }
                let record = WorkerRecord {
                    worker_id: worker_id.clone(),
                    status,
                    updated_at: instant,
                };
                self.file(record.clone());
                Some(record)
            },
        }
    }

    pub fn list(&self) -> (r: Vec<WorkerRecord>)
        ensures
            lists_workers(r@, self@),
    {
        proof {
            use_type_invariant(self);
            lemma_by_id(self.records@);
        }
        let r = self.records.clone();
        assert(r@ =~= self.records@);
        r
    }
}

proof fn lemma_update_by_id(records: Seq<WorkerRecord>, i: int, record: WorkerRecord)
    requires
        distinct_ids(records),
        0 <= i < records.len(),
        records[i].worker_id@ == record.worker_id@,
    ensures
        by_id(records.update(i, record)) == by_id(records).insert(record.worker_id@, record@),
    decreases records.len(),
{
    let updated = records.update(i, record);
    let earlier = records.drop_last();
    if i == records.len() - 1 {
        assert(updated.drop_last() =~= earlier);
        assert(by_id(updated) =~= by_id(records).insert(record.worker_id@, record@));
    } else {
        assert(updated.drop_last() =~= earlier.update(i, record));
        lemma_update_by_id(earlier, i, record);
        assert(records.last().worker_id@ != records[i].worker_id@);
        assert(by_id(updated) =~= by_id(records).insert(record.worker_id@, record@));
    }
}

} // verus!
