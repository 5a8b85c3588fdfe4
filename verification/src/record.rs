//! Process records and snapshots of the process table.

use vstd::prelude::*;
use vstd::set_lib::{lemma_int_range, lemma_len_subset, set_int_range};

verus! {

/// One process as it was sampled. Percentages are held in hundredths of a
/// percent, so that 12.34 % is the number 1234.
#[derive(Debug, PartialEq, Eq)]
pub struct ProcessRecord {
    pub pid: u32,
    pub ppid: u32,
    pub user: String,
    pub priority: i32,
    pub nice: i32,
    pub virt: u64,
    pub res: u64,
    pub shr: u64,
    pub state: char,
    pub cpu_time: u64,
    pub cpu: u32,
    pub mem: u32,
    pub start_time: u64,
    pub command: String,
}

/// The mathematical value of a [`ProcessRecord`]: texts are sequences of
/// characters.
pub struct RecordView {
    pub pid: u32,
    pub ppid: u32,
    pub user: Seq<char>,
    pub priority: i32,
    pub nice: i32,
    pub virt: u64,
    pub res: u64,
    pub shr: u64,
    pub state: char,
    pub cpu_time: u64,
    pub cpu: u32,
    pub mem: u32,
    pub start_time: u64,
    pub command: Seq<char>,
}

impl View for ProcessRecord {
    type V = RecordView;

    open spec fn view(&self) -> RecordView {
        RecordView {
            pid: self.pid,
            ppid: self.ppid,
            user: self.user@,
            priority: self.priority,
            nice: self.nice,
            virt: self.virt,
            res: self.res,
            shr: self.shr,
            state: self.state,
            cpu_time: self.cpu_time,
            cpu: self.cpu,
            mem: self.mem,
            start_time: self.start_time,
            command: self.command@,
        }
    }
}

impl Clone for ProcessRecord {
    fn clone(&self) -> (copy: ProcessRecord)
        ensures
            copy@ == self@,
    {
        ProcessRecord {
            pid: self.pid,
            ppid: self.ppid,
            user: self.user.clone(),
            priority: self.priority,
            nice: self.nice,
            virt: self.virt,
            res: self.res,
            shr: self.shr,
            state: self.state,
            cpu_time: self.cpu_time,
            cpu: self.cpu,
            mem: self.mem,
            start_time: self.start_time,
            command: self.command.clone(),
        }
    }
}

/// The values of a sequence of records.
pub open spec fn records_view(records: Seq<ProcessRecord>) -> Seq<RecordView> {
    records.map_values(|r: ProcessRecord| r@)
}

/// No process identifier occurs twice.
pub open spec fn distinct_pids(records: Seq<RecordView>) -> bool {
    forall|i: int, j: int| 0 <= i < j < records.len() ==> records[i].pid != records[j].pid
}

/// The record at position `j` carries the identifier of an earlier record.
pub open spec fn repeats_earlier(records: Seq<RecordView>, j: int) -> bool {
    exists|i: int| 0 <= i < j && records[i].pid == records[j].pid
}

/// Position `j` is the first whose record repeats an earlier identifier.
pub open spec fn is_first_repeat(records: Seq<RecordView>, j: int) -> bool {
    &&& 0 <= j < records.len()
    &&& repeats_earlier(records, j)
    &&& forall|k: int| 0 <= k < j ==> !repeats_earlier(records, k)
}

/// The number of records in the state `state`.
pub open spec fn state_count(records: Seq<RecordView>, state: char) -> nat
    decreases records.len(),
{
    if records.len() == 0 {
        0
    } else {
        state_count(records.drop_last(), state) + if records.last().state == state {
            1nat
        } else {
            0nat
        }
    }
}

/// Why a sample of the process table could not be used.
#[derive(Debug, Clone, Copy, PartialEq, Eq)]
pub enum SamplingError {
    /// The operating system query failed.
    QueryFailed,
    /// The sample lists this process identifier more than once.
    DuplicatePid(u32),
}

/// The process table at one instant: records with pairwise different
/// process identifiers, and the time of capture.
#[derive(Debug)]
pub struct ProcessSnapshot {
    timestamp: u64,
    records: Vec<ProcessRecord>,
}

impl View for ProcessSnapshot {
    type V = Seq<RecordView>;

    closed spec fn view(&self) -> Seq<RecordView> {
        records_view(self.records@)
    }
}

impl ProcessSnapshot {
    /// The capture time given at construction.
    pub closed spec fn captured_at(&self) -> u64 {
        self.timestamp
    }

    /// Validity: process identifiers are pairwise different.
    pub open spec fn wf(&self) -> bool {
        distinct_pids(self@)
    }

    /// A snapshot without processes.
    pub fn empty(timestamp: u64) -> (snapshot: ProcessSnapshot)
        ensures
            snapshot.wf(),
            snapshot@ == Seq::<RecordView>::empty(),
            snapshot.captured_at() == timestamp,
    {
        let snapshot = ProcessSnapshot { timestamp, records: Vec::new() };
        assert(snapshot@ =~= Seq::<RecordView>::empty());
        snapshot
    }

    /// Makes a snapshot of `records`. A sample in which an identifier
    /// occurs twice is refused, naming the identifier of the first record
    /// that repeats an earlier one.
    pub fn new(timestamp: u64, records: Vec<ProcessRecord>) -> (made: Result<
        ProcessSnapshot,
        SamplingError,
    >)
        ensures
            made is Ok <==> distinct_pids(records_view(records@)),
            made matches Ok(snapshot) ==> {
                &&& snapshot.wf()
                &&& snapshot@ == records_view(records@)
                &&& snapshot.captured_at() == timestamp
            },
            made matches Err(e) ==> exists|j: int|
                #![trigger is_first_repeat(records_view(records@), j)]
                is_first_repeat(records_view(records@), j) && e == SamplingError::DuplicatePid(
                    records[j].pid,
                ),
    {
        let ghost recs = records_view(records@);
        let n = records.len();
        let mut j: usize = 0;
        while j < n
            invariant
                n == records.len(),
                recs == records_view(records@),
                j <= n,
                forall|k: int| 0 <= k < j ==> !repeats_earlier(recs, k),
            decreases n - j,
        {
            let pid = records[j].pid;
            let mut i: usize = 0;
            while i < j
                invariant
                    n == records.len(),
                    recs == records_view(records@),
                    i <= j < n,
                    pid == recs[j as int].pid,
                    forall|k: int| 0 <= k < i ==> recs[k].pid != pid,
                    forall|k: int| 0 <= k < j ==> !repeats_earlier(recs, k),
                decreases j - i,
            {
                if records[i].pid == pid {
                    proof {
                        assert(recs[i as int].pid == recs[j as int].pid);
                        assert(repeats_earlier(recs, j as int));
                        assert(is_first_repeat(recs, j as int));
                        assert(!distinct_pids(recs));
                    }
                    return Err(SamplingError::DuplicatePid(pid));
                }
                i += 1;
            }
            j += 1;
        }
        proof {
            assert forall|a: int, b: int| 0 <= a < b < recs.len() implies recs[a].pid
                != recs[b].pid by {
                assert(!repeats_earlier(recs, b));
            }
        }
        Ok(ProcessSnapshot { timestamp, records })
    }

    /// The time of capture.
    pub fn timestamp(&self) -> (t: u64)
        ensures
            t == self.captured_at(),
    {
        self.timestamp
    }

    /// The number of processes.
    pub fn len(&self) -> (n: usize)
        ensures
            n == self@.len(),
    {
        self.records.len()
    }

    /// Counts the processes in the state `state`.
    pub fn count_in_state(&self, state: char) -> (count: usize)
        ensures
            count == state_count(self@, state),
    {
        let n = self.records.len();
        let mut count: usize = 0;
        let mut i: usize = 0;
        proof {
            assert(self@.take(0) =~= Seq::<RecordView>::empty());
        }
        while i < n
            invariant
                n == self.records.len(),
                n == self@.len(),
                i <= n,
                count <= i,
                count == state_count(self@.take(i as int), state),
            decreases n - i,
        {
            proof {
                assert(self@.take(i + 1).drop_last() =~= self@.take(i as int));
                assert(self@.take(i + 1).last() == self.records[i as int]@);
            }
            if self.records[i].state == state {
                count += 1;
            }
            i += 1;
        }
        proof {
            assert(self@.take(n as int) =~= self@);
        }
        count
    }

    /// The record at position `i`.
    pub fn get(&self, i: usize) -> (record: &ProcessRecord)
        requires
            i < self@.len(),
        ensures
            record@ == self@[i as int],
    {
        &self.records[i]
    }
}

/// A snapshot holds at most as many records as there are identifiers.
pub proof fn lemma_distinct_pids_bound(records: Seq<RecordView>)
    requires
        distinct_pids(records),
    ensures
        records.len() <= 0x1_0000_0000,
{
    let pids = records.map_values(|r: RecordView| r.pid as int);
    assert(pids.no_duplicates());
    pids.unique_seq_to_set();
    let full = set_int_range(0, 0x1_0000_0000);
    lemma_int_range(0, 0x1_0000_0000);
    assert(pids.to_set().subset_of(full)) by {
        assert forall|p: int| pids.to_set().contains(p) implies full.contains(p) by {
            let i = choose|i: int| 0 <= i < pids.len() && pids[i] == p;
            assert(pids[i] == records[i].pid as int);
        }
    }
    lemma_len_subset(pids.to_set(), full);
}

} // verus!
