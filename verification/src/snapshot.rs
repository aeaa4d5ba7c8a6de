//! The process-table snapshot: the set of live processes captured once per
//! run, each with its open-descriptor table, plus lookup by process id.

use vstd::prelude::*;

use crate::records::Descriptor;
use crate::records::ProcessRecord;
use crate::records::ProcessRecordV;

verus! {

/// One process of the snapshot: its record and its open-descriptor table.
/// `descriptors` is `None` when the descriptor directory was unreadable
/// (permission revoked, process exited mid-scan); the resolver treats that
/// as "no match from this process", never as an error.
#[derive(Debug, PartialEq, Eq)]
pub struct ProcessEntry {
    pub record: ProcessRecord,
    pub descriptors: Option<Vec<Descriptor>>,
}

/// Ghost view of a `ProcessEntry`.
pub ghost struct ProcessEntryV {
    pub record: ProcessRecordV,
    pub descriptors: Option<Seq<Descriptor>>,
}

impl View for ProcessEntry {
    type V = ProcessEntryV;

    open spec fn view(&self) -> ProcessEntryV {
        ProcessEntryV { record: self.record@, descriptors: self.descriptors.deep_view() }
    }
}

impl DeepView for ProcessEntry {
    type V = ProcessEntryV;

    open spec fn deep_view(&self) -> ProcessEntryV {
        self.view()
    }
}

/// The process table captured once per run, in scan-encounter order.  It is
/// never refreshed mid-resolution: all resolution reads this one value.
#[derive(Debug, PartialEq, Eq)]
pub struct Snapshot {
    pub procs: Vec<ProcessEntry>,
}

impl View for Snapshot {
    type V = Seq<ProcessEntryV>;

    open spec fn view(&self) -> Seq<ProcessEntryV> {
        self.procs.deep_view()
    }
}

/// The record of the first process of `procs` whose id is `pid`, if any.
pub open spec fn spec_lookup(procs: Seq<ProcessEntryV>, pid: u32) -> Option<ProcessRecordV>
    decreases procs.len(),
{
    if procs.len() == 0 {
        None
    } else if procs[0].record.pid == pid {
        Some(procs[0].record)
    } else {
        spec_lookup(procs.drop_first(), pid)
    }
}

impl Snapshot {
    /// Looks a process id up in the snapshot, returning a copy of the first
    /// matching record.
    pub fn lookup(&self, pid: u32) -> (r: Option<ProcessRecord>)
        ensures
            r.deep_view() == spec_lookup(self@, pid),
    {
        let n = self.procs.len();
        let mut i: usize = 0;
        proof {
            assert(self@.skip(0) =~= self@);
        }
        while i < n
            invariant
                n == self.procs.len(),
                i <= n,
                spec_lookup(self@, pid) == spec_lookup(self@.skip(i as int), pid),
            decreases n - i,
        {
            if self.procs[i].record.pid == pid {
                let r = Some(self.procs[i].record.clone());
                proof {
                    assert(self@.skip(i as int)[0] == self@[i as int]);
                }
                return r;
            }
            proof {
                assert(self@.skip(i as int).drop_first() =~= self@.skip(i as int + 1));
            }
            i = i + 1;
        }
        proof {
            assert(self@.skip(n as int).len() == 0);
        }
        None
    }
}

} // verus!
