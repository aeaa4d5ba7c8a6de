//! User identity lookup: the account directory captured once per run as a
//! plain mapping from numeric user id to user name.

use vstd::prelude::*;

use crate::records::OwnershipRecord;
use crate::records::OwnershipRecordV;

verus! {

/// One account entry: a numeric user id and its user name.
#[derive(Debug, PartialEq, Eq)]
pub struct UserEntry {
    pub uid: u32,
    pub name: String,
}

/// Ghost view of a `UserEntry`.
pub ghost struct UserEntryV {
    pub uid: u32,
    pub name: Seq<char>,
}

impl View for UserEntry {
    type V = UserEntryV;

    open spec fn view(&self) -> UserEntryV {
        UserEntryV { uid: self.uid, name: self.name@ }
    }
}

impl DeepView for UserEntry {
    type V = UserEntryV;

    open spec fn deep_view(&self) -> UserEntryV {
        self.view()
    }
}

/// The account directory captured once per run and never refreshed mid-run.
/// A user id with no entry resolves to an absent name, not an error.
#[derive(Debug, PartialEq, Eq)]
pub struct UserDirectory {
    pub entries: Vec<UserEntry>,
}

impl View for UserDirectory {
    type V = Seq<UserEntryV>;

    open spec fn view(&self) -> Seq<UserEntryV> {
        self.entries.deep_view()
    }
}

/// The name of the first entry of `dir` whose id is `uid`, if any.
pub open spec fn spec_user_lookup(dir: Seq<UserEntryV>, uid: u32) -> Option<Seq<char>>
    decreases dir.len(),
{
    if dir.len() == 0 {
        None
    } else if dir[0].uid == uid {
        Some(dir[0].name)
    } else {
        spec_user_lookup(dir.drop_first(), uid)
    }
}

impl UserDirectory {
    /// Maps a numeric user id to a user name, when the directory has one.
    pub fn lookup(&self, uid: u32) -> (r: Option<String>)
        ensures
            r.deep_view() == spec_user_lookup(self@, uid),
    {
        let n = self.entries.len();
        let mut i: usize = 0;
        proof {
            assert(self@.skip(0) =~= self@);
        }
        while i < n
            invariant
                n == self.entries.len(),
                i <= n,
                spec_user_lookup(self@, uid) == spec_user_lookup(self@.skip(i as int), uid),
            decreases n - i,
        {
            if self.entries[i].uid == uid {
                let r = Some(self.entries[i].name.clone());
                proof {
                    assert(self@.skip(i as int)[0] == self@[i as int]);
                }
                return r;
            }
            proof {
                assert(self@.skip(i as int).drop_first() =~= self@.skip(i as int + 1));
            }
            i = i + 1;
        }
        proof {
            assert(self@.skip(n as int).len() == 0);
        }
        None
    }
}

/// The user name an ownership record derives: resolved from the first
/// associated process's user id, absent when there is no owner, no user id,
/// or no directory entry.
pub open spec fn derived_user(r: OwnershipRecordV, dir: Seq<UserEntryV>) -> Option<Seq<char>> {
    if r.processes.len() > 0 {
        match r.processes[0].user_id {
            Some(uid) => spec_user_lookup(dir, uid),
            None => None,
        }
    } else {
        None
    }
}

/// One record after enrichment: only `user_name` changes.
pub open spec fn enrich_one(r: OwnershipRecordV, dir: Seq<UserEntryV>) -> OwnershipRecordV {
    OwnershipRecordV { user_name: derived_user(r, dir), ..r }
}

/// User identity enrichment of a whole record set, in order.
pub open spec fn enrich_spec(rs: Seq<OwnershipRecordV>, dir: Seq<UserEntryV>) -> Seq<
    OwnershipRecordV,
> {
    rs.map_values(|r: OwnershipRecordV| enrich_one(r, dir))
}

/// Fills the derived `user_name` of every record from the captured account
/// directory.  A missing account entry yields an absent name, never an
/// error.
pub fn enrich_users(records: &Vec<OwnershipRecord>, dir: &UserDirectory) -> (r: Vec<
    OwnershipRecord,
>)
    ensures
        r.deep_view() == enrich_spec(records.deep_view(), dir@),
        r.len() == records.len(),
{
    let n = records.len();
    let mut r: Vec<OwnershipRecord> = Vec::new();
    let mut i: usize = 0;
    while i < n
        invariant
            n == records.len(),
            i <= n,
            r@.len() == i,
            forall|k: int| 0 <= k < i ==> (#[trigger] r@[k])@ == enrich_one(records@[k]@, dir@),
        decreases n - i,
    {
        let mut rec = records[i].clone();
        let user_name = if rec.processes.len() > 0 {
            match rec.processes[0].user_id {
                Some(uid) => dir.lookup(uid),
                None => None,
            }
        } else {
            None
        };
        rec.user_name = user_name;
        proof {
            assert(rec@.processes =~= records@[i as int]@.processes);
        }
        r.push(rec);
        i = i + 1;
    }
    proof {
        assert forall|k: int| 0 <= k < n implies r.deep_view()[k] == enrich_spec(
            records.deep_view(),
            dir@,
        )[k] by {
            assert(r.deep_view()[k] == r@[k]@);
            assert(records.deep_view()[k] == records@[k]@);
        }
        assert(r.deep_view() =~= enrich_spec(records.deep_view(), dir@));
    }
    r
}

} // verus!
