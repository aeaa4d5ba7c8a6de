//! The ownership resolver: maps each socket to the ordered sequence of
//! processes that own it, using either the direct per-socket owner reference
//! or the indirect descriptor-table scan keyed by the socket's kernel id.

use vstd::prelude::*;

use crate::records::Descriptor;
use crate::records::OwnershipRecord;
use crate::records::OwnershipRecordV;
use crate::records::ProcessRecord;
use crate::records::ProcessRecordV;
use crate::records::SocketRecord;
use crate::records::SocketRecordV;
use crate::snapshot::spec_lookup;
use crate::snapshot::ProcessEntry;
use crate::snapshot::ProcessEntryV;
use crate::snapshot::Snapshot;

verus! {

/// The record standing for a process id with no entry in the snapshot (a
/// process that vanished between socket and process capture): only the id is
/// populated.
pub open spec fn placeholder_record(pid: u32) -> ProcessRecordV {
    ProcessRecordV {
        pid,
        user_id: None,
        name: None,
        cmd: Seq::empty(),
        exe: None,
        cwd: None,
    }
}

/// The record the direct strategy yields for one owner id: the snapshot's
/// record when the id is known, the placeholder otherwise.
pub open spec fn owner_for(snap: Seq<ProcessEntryV>, pid: u32) -> ProcessRecordV {
    match spec_lookup(snap, pid) {
        Some(r) => r,
        None => placeholder_record(pid),
    }
}

/// Direct strategy: every id the enumerator associated with the socket, in
/// the order given, each looked up in the snapshot.
pub open spec fn direct_owners(snap: Seq<ProcessEntryV>, pids: Seq<u32>) -> Seq<ProcessRecordV> {
    pids.map_values(|pid: u32| owner_for(snap, pid))
}

/// Whether a process entry holds a descriptor referencing socket inode
/// `kernel_id`.  An unreadable descriptor table never matches.
pub open spec fn entry_holds(e: ProcessEntryV, kernel_id: u64) -> bool {
    match e.descriptors {
        Some(ds) => exists|i: int| 0 <= i < ds.len() && ds[i] == Descriptor::SocketRef(kernel_id),
        None => false,
    }
}

/// Indirect strategy: every process holding a descriptor to `kernel_id`, in
/// scan-encounter order, at most once per process.
pub open spec fn indirect_owners(snap: Seq<ProcessEntryV>, kernel_id: u64) -> Seq<
    ProcessRecordV,
> {
    snap.filter(|e: ProcessEntryV| entry_holds(e, kernel_id)).map_values(
        |e: ProcessEntryV| e.record,
    )
}

/// The owners of one socket, by the strategy its record supports.
pub open spec fn owners_of(snap: Seq<ProcessEntryV>, s: SocketRecordV) -> Seq<ProcessRecordV> {
    match s.direct_pids {
        Some(pids) => direct_owners(snap, pids),
        None => indirect_owners(snap, s.kernel_id),
    }
}

/// The ownership record of one socket, before user-name enrichment.
pub open spec fn resolve_one(snap: Seq<ProcessEntryV>, s: SocketRecordV) -> OwnershipRecordV {
    OwnershipRecordV { socket: s, processes: owners_of(snap, s), user_name: None }
}

/// The resolver: one ownership record per enumerated socket, in enumeration
/// order.  An unmatched socket yields a record with an empty process list;
/// no socket is ever dropped.
pub open spec fn resolve_spec(sockets: Seq<SocketRecordV>, snap: Seq<ProcessEntryV>) -> Seq<
    OwnershipRecordV,
> {
    sockets.map_values(|s: SocketRecordV| resolve_one(snap, s))
}

fn lookup_or_placeholder(snap: &Snapshot, pid: u32) -> (r: ProcessRecord)
    ensures
        r@ == owner_for(snap@, pid),
{
    match snap.lookup(pid) {
        Some(rec) => rec,
        None => {
            let r = ProcessRecord {
                pid,
                user_id: None,
                name: None,
                cmd: Vec::new(),
                exe: None,
                cwd: None,
            };
            proof {
                assert(r@.cmd =~= placeholder_record(pid).cmd);
            }
            r
        },
    }
}

fn direct_owners_exec(snap: &Snapshot, pids: &Vec<u32>) -> (r: Vec<ProcessRecord>)
    ensures
        r.deep_view() == direct_owners(snap@, pids@),
{
    let n = pids.len();
    let mut r: Vec<ProcessRecord> = Vec::new();
    let mut i: usize = 0;
    while i < n
        invariant
            n == pids.len(),
            i <= n,
            r@.len() == i,
            forall|k: int| 0 <= k < i ==> (#[trigger] r@[k])@ == owner_for(snap@, pids@[k]),
        decreases n - i,
    {
        r.push(lookup_or_placeholder(snap, pids[i]));
        i = i + 1;
    }
    proof {
        assert forall|k: int| 0 <= k < n implies r.deep_view()[k] == direct_owners(
            snap@,
            pids@,
        )[k] by {
            assert(r.deep_view()[k] == r@[k]@);
        }
        assert(r.deep_view() =~= direct_owners(snap@, pids@));
    }
    r
}

/// Whether this process's descriptor table references `kernel_id`; the scan
/// of one process stops at its first match.
fn entry_matches(e: &ProcessEntry, kernel_id: u64) -> (b: bool)
    ensures
        b == entry_holds(e@, kernel_id),
{
    match &e.descriptors {
        Some(ds) => {
            proof {
                assert(ds.deep_view() =~= ds@);
            }
            let n = ds.len();
            let mut j: usize = 0;
            while j < n
                invariant
                    n == ds.len(),
                    j <= n,
                    forall|t: int| 0 <= t < j ==> ds@[t] != Descriptor::SocketRef(kernel_id),
                    e.descriptors == Some(*ds),
                decreases n - j,
            {
                match ds[j] {
                    Descriptor::SocketRef(k) => {
                        if k == kernel_id {
                            proof {
                                assert(ds.deep_view() =~= ds@);
                                assert(ds.deep_view()[j as int] == Descriptor::SocketRef(
                                    kernel_id,
                                ));
                            }
                            return true;
                        }
                    },
                    Descriptor::Other => {},
                }
                j = j + 1;
            }
            proof {
                assert(ds.deep_view() =~= ds@);
                assert(!entry_holds(e@, kernel_id));
            }
            false
        },
        None => false,
    }
}

fn indirect_owners_exec(snap: &Snapshot, kernel_id: u64) -> (r: Vec<ProcessRecord>)
    ensures
        r.deep_view() == indirect_owners(snap@, kernel_id),
{
    let n = snap.procs.len();
    let mut r: Vec<ProcessRecord> = Vec::new();
    let mut i: usize = 0;
    proof {
        reveal(Seq::filter);
        assert(snap@.take(0) =~= Seq::<ProcessEntryV>::empty());
        assert(r.deep_view() =~= indirect_owners(snap@.take(0), kernel_id));
    }
    while i < n
        invariant
            n == snap.procs.len(),
            i <= n,
            r.deep_view() == indirect_owners(snap@.take(i as int), kernel_id),
        decreases n - i,
    {
        let ghost pre = snap@.take(i as int);
        let ghost cur = snap@.take(i as int + 1);
        let ghost old_r = r.deep_view();
        proof {
            reveal(Seq::filter);
            assert(cur.drop_last() =~= pre);
            assert(cur.last() == snap@[i as int]);
            assert(snap@[i as int] == snap.procs@[i as int]@);
        }
        let matched = entry_matches(&snap.procs[i], kernel_id);
        if matched {
            r.push(snap.procs[i].record.clone());
            proof {
                reveal(Seq::filter);
                assert(entry_holds(cur.last(), kernel_id));
                assert(cur.filter(|e: ProcessEntryV| entry_holds(e, kernel_id)) == pre.filter(
                    |e: ProcessEntryV| entry_holds(e, kernel_id),
                ).push(cur.last()));
                assert(old_r == indirect_owners(pre, kernel_id));
                assert(r.deep_view().len() == old_r.len() + 1);
                assert(indirect_owners(cur, kernel_id).len() == old_r.len() + 1);
                assert forall|k: int| 0 <= k < r.deep_view().len() implies r.deep_view()[k]
                    == indirect_owners(cur, kernel_id)[k] by {
                    assert(r.deep_view()[k] == r@[k]@);
                    if k < old_r.len() {
                        assert(r@[k]@ == old_r[k]);
                    } else {
                        assert(cur.filter(|e: ProcessEntryV| entry_holds(e, kernel_id))[k]
                            == cur.last());
                        assert(r@[k]@ == snap.procs@[i as int].record@);
                    }
                }
                assert(r.deep_view() =~= indirect_owners(cur, kernel_id));
            }
        } else {
            proof {
                reveal(Seq::filter);
                assert(!entry_holds(cur.last(), kernel_id));
                assert(cur.filter(|e: ProcessEntryV| entry_holds(e, kernel_id)) == pre.filter(
                    |e: ProcessEntryV| entry_holds(e, kernel_id),
                ));
                assert(r.deep_view() =~= indirect_owners(cur, kernel_id));
            }
        }
        i = i + 1;
    }
    proof {
        assert(snap@.take(n as int) =~= snap@);
    }
    r
}

/// Joins the enumerated sockets with the process snapshot: one ownership
/// record per socket, in enumeration order, with the owners determined by
/// the strategy each socket record supports.  A per-socket or per-process
/// resolution miss never fails the run.
pub fn resolve(sockets: &Vec<SocketRecord>, snap: &Snapshot) -> (r: Vec<OwnershipRecord>)
    ensures
        r.deep_view() == resolve_spec(sockets.deep_view(), snap@),
        r.len() == sockets.len(),
{
    let n = sockets.len();
    let mut r: Vec<OwnershipRecord> = Vec::new();
    let mut i: usize = 0;
    while i < n
        invariant
            n == sockets.len(),
            i <= n,
            r@.len() == i,
            forall|k: int| 0 <= k < i ==> (#[trigger] r@[k])@ == resolve_one(
                snap@,
                sockets@[k]@,
            ),
        decreases n - i,
    {
        let socket = sockets[i].clone();
        let ghost sv = socket@;
        let processes = match &socket.direct_pids {
            Some(pids) => {
                let owners = direct_owners_exec(snap, pids);
                proof {
                    assert(pids.deep_view() =~= pids@);
                    assert(owners.deep_view() == owners_of(snap@, sv));
                }
                owners
            },
            None => indirect_owners_exec(snap, socket.kernel_id),
        };
        proof {
            assert(processes.deep_view() == owners_of(snap@, sv));
        }
        r.push(OwnershipRecord { socket, processes, user_name: None });
        proof {
            assert(r@[i as int]@ == resolve_one(snap@, sockets@[i as int]@));
        }
        i = i + 1;
    }
    proof {
        assert forall|k: int| 0 <= k < n implies r.deep_view()[k] == resolve_spec(
            sockets.deep_view(),
            snap@,
        )[k] by {
            assert(r.deep_view()[k] == r@[k]@);
            assert(sockets.deep_view()[k] == sockets@[k]@);
        }
        assert(r.deep_view() =~= resolve_spec(sockets.deep_view(), snap@));
    }
    r
}

} // verus!
