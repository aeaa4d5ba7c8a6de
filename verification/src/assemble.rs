//! The record assembler: stable ascending sort by local port, optional
//! single-port filtering with a distinguishable miss signal, and the whole
//! pipeline joined into one call.

use vstd::prelude::*;

use crate::identity::enrich_spec;
use crate::identity::enrich_users;
use crate::identity::UserDirectory;
use crate::records::OwnershipRecord;
use crate::records::OwnershipRecordV;
use crate::records::SocketRecord;
use crate::resolve::resolve;
use crate::resolve::resolve_spec;
use crate::snapshot::Snapshot;

verus! {

/// The requested scope of a listing: everything, or one local port.
#[derive(Clone, Copy, Debug, PartialEq, Eq, Structural)]
pub enum PortFilter {
    All,
    Port(u16),
}

/// The distinguishable "no record matches the requested port" outcome.  It
/// is a reported signal for the boundary layer, not an internal error.
#[derive(Clone, Copy, Debug, PartialEq, Eq, Structural)]
pub struct FilterMiss {
    pub port: u16,
}

/// Membership test for one local port.
pub open spec fn port_pred(p: u16) -> spec_fn(OwnershipRecordV) -> bool {
    |r: OwnershipRecordV| r.socket.local_port == p
}

/// The subsequence of `s` whose records have local port `p`, in order.
pub open spec fn by_port(s: Seq<OwnershipRecordV>, p: u16) -> Seq<OwnershipRecordV> {
    s.filter(port_pred(p))
}

/// Ascending by local port.
pub open spec fn sorted_by_port(s: Seq<OwnershipRecordV>) -> bool {
    forall|i: int, j: int|
        0 <= i <= j < s.len() ==> (#[trigger] s[i]).socket.local_port
            <= (#[trigger] s[j]).socket.local_port
}

/// What it means for `out` to be the stable sort of `inp` by local port:
/// same length, ascending ports, and for every port the matching records
/// keep their original relative order.  These conditions determine `out`
/// uniquely.
pub open spec fn stable_sort_of(out: Seq<OwnershipRecordV>, inp: Seq<OwnershipRecordV>) -> bool {
    &&& out.len() == inp.len()
    &&& sorted_by_port(out)
    &&& forall|p: u16| #[trigger] by_port(out, p) == by_port(inp, p)
}

pub(crate) proof fn lemma_filter_empty(pred: spec_fn(OwnershipRecordV) -> bool)
    ensures
        Seq::<OwnershipRecordV>::empty().filter(pred) == Seq::<OwnershipRecordV>::empty(),
{
    reveal(Seq::filter);
}

pub(crate) proof fn lemma_filter_singleton(x: OwnershipRecordV, pred: spec_fn(OwnershipRecordV) -> bool)
    ensures
        pred(x) ==> seq![x].filter(pred) == seq![x],
        !pred(x) ==> seq![x].filter(pred) == Seq::<OwnershipRecordV>::empty(),
{
    reveal(Seq::filter);
    assert(seq![x].drop_last() =~= Seq::<OwnershipRecordV>::empty());
    lemma_filter_empty(pred);
    if pred(x) {
        assert(seq![x].filter(pred) =~= seq![x]);
    }
}

proof fn lemma_filter_all_false(s: Seq<OwnershipRecordV>, pred: spec_fn(OwnershipRecordV) -> bool)
    requires
        forall|i: int| 0 <= i < s.len() ==> !pred(s[i]),
    ensures
        s.filter(pred) == Seq::<OwnershipRecordV>::empty(),
    decreases s.len(),
{
    reveal(Seq::filter);
    if s.len() == 0 {
        assert(s.filter(pred) =~= Seq::<OwnershipRecordV>::empty());
    } else {
        assert(!pred(s.last()));
        lemma_filter_all_false(s.drop_last(), pred);
    }
}

/// Decomposes the port filter of a sequence around an insertion point.
proof fn lemma_by_port_insert(s: Seq<OwnershipRecordV>, j: int, x: OwnershipRecordV, p: u16)
    requires
        0 <= j <= s.len(),
    ensures
        by_port(s.insert(j, x), p) == by_port(s.take(j), p) + seq![x].filter(port_pred(p))
            + by_port(s.skip(j), p),
        by_port(s, p) == by_port(s.take(j), p) + by_port(s.skip(j), p),
{
    let pred = port_pred(p);
    assert(s.insert(j, x) =~= (s.take(j) + seq![x]) + s.skip(j));
    Seq::filter_distributes_over_add(s.take(j) + seq![x], s.skip(j), pred);
    Seq::filter_distributes_over_add(s.take(j), seq![x], pred);
    assert(s =~= s.take(j) + s.skip(j));
    Seq::filter_distributes_over_add(s.take(j), s.skip(j), pred);
}

/// Extends the port filter of a prefix by one element.
proof fn lemma_by_port_take_step(s: Seq<OwnershipRecordV>, i: int, p: u16)
    requires
        0 <= i < s.len(),
    ensures
        p == s[i].socket.local_port ==> by_port(s.take(i + 1), p) == by_port(s.take(i), p).push(
            s[i],
        ),
        p != s[i].socket.local_port ==> by_port(s.take(i + 1), p) == by_port(s.take(i), p),
{
    let pred = port_pred(p);
    assert(s.take(i + 1) =~= s.take(i) + seq![s[i]]);
    Seq::filter_distributes_over_add(s.take(i), seq![s[i]], pred);
    lemma_filter_singleton(s[i], pred);
    if p == s[i].socket.local_port {
        assert(by_port(s.take(i), p) + seq![s[i]] =~= by_port(s.take(i), p).push(s[i]));
    } else {
        assert(by_port(s.take(i), p) + Seq::<OwnershipRecordV>::empty() =~= by_port(
            s.take(i),
            p,
        ));
    }
}

/// Inserts `x` after every record whose local port is less than or equal to
/// its own, keeping the vector sorted and the relative order of equal ports.
fn insert_sorted(v: &mut Vec<OwnershipRecord>, x: OwnershipRecord)
    requires
        sorted_by_port(old(v).deep_view()),
    ensures
        final(v).deep_view().len() == old(v).deep_view().len() + 1,
        sorted_by_port(final(v).deep_view()),
        forall|p: u16| p != x@.socket.local_port ==> #[trigger] by_port(
            final(v).deep_view(),
            p,
        ) == by_port(old(v).deep_view(), p),
        by_port(final(v).deep_view(), x@.socket.local_port) == by_port(
            old(v).deep_view(),
            x@.socket.local_port,
        ).push(x@),
{
    let xp = x.socket.local_port;
    let ghost dv0 = v.deep_view();
    let ghost xv = x@;
    let n = v.len();
    let mut j: usize = 0;
    while j < n && v[j].socket.local_port <= xp
        invariant
            n == v.len(),
            v.deep_view() == dv0,
            j <= n,
            xp == xv.socket.local_port,
            forall|k: int| 0 <= k < j ==> (#[trigger] dv0[k]).socket.local_port <= xp,
            n == dv0.len(),
            forall|k: int| 0 <= k < n ==> #[trigger] v@[k]@ == dv0[k],
        decreases n - j,
    {
        proof {
            assert(v@[j as int]@ == dv0[j as int]);
        }
        j = j + 1;
    }
    proof {
        if j < n {
            assert(v@[j as int]@ == dv0[j as int]);
            assert(dv0[j as int].socket.local_port > xp);
        }
    }
    assert(sorted_by_port(dv0));
    assert forall|k: int| j <= k < n implies (#[trigger] dv0[k]).socket.local_port > xp by {
        assert(dv0[j as int].socket.local_port <= dv0[k].socket.local_port);
    }
    let ghost ov = v@;
    v.insert(j, x);
    proof {
        let dv = dv0.insert(j as int, xv);
        ov.insert_ensures(j as int, x);
        dv0.insert_ensures(j as int, xv);
        assert forall|k: int| 0 <= k < v@.len() implies v.deep_view()[k] == dv[k] by {
            assert(v.deep_view()[k] == v@[k]@);
            if k < j {
                assert(v@[k] == ov[k]);
            } else if k == j {
                assert(v@[k] == x);
            } else {
                assert(v@[k] == ov[k - 1]);
            }
        }
        assert(v.deep_view() =~= dv);
        // the new vector is sorted
        assert forall|a: int, b: int| 0 <= a <= b < dv.len() implies (#[trigger] dv[a]).socket.local_port
            <= (#[trigger] dv[b]).socket.local_port by {
            if a < j {
                assert(dv[a] == dv0[a]);
            } else if a == j {
                assert(dv[a] == xv);
            } else {
                assert(dv[a] == dv0[a - 1]);
            }
            if b < j {
                assert(dv[b] == dv0[b]);
            } else if b == j {
                assert(dv[b] == xv);
            } else {
                assert(dv[b] == dv0[b - 1]);
            }
        }
        // the port filters move as stated
        assert forall|p: u16| p != xv.socket.local_port implies #[trigger] by_port(dv, p)
            == by_port(dv0, p) by {
            lemma_by_port_insert(dv0, j as int, xv, p);
            lemma_filter_singleton(xv, port_pred(p));
            assert(by_port(dv0.take(j as int), p) + Seq::<OwnershipRecordV>::empty() + by_port(
                dv0.skip(j as int),
                p,
            ) =~= by_port(dv0.take(j as int), p) + by_port(dv0.skip(j as int), p));
        }
        assert(by_port(dv, xv.socket.local_port) == by_port(dv0, xv.socket.local_port).push(
            xv,
        )) by {
            let p = xv.socket.local_port;
            lemma_by_port_insert(dv0, j as int, xv, p);
            lemma_filter_singleton(xv, port_pred(p));
            assert forall|k: int| 0 <= k < dv0.skip(j as int).len() implies !port_pred(p)(
                #[trigger] dv0.skip(j as int)[k],
            ) by {
                assert(dv0.skip(j as int)[k] == dv0[k + j]);
            }
            lemma_filter_all_false(dv0.skip(j as int), port_pred(p));
            assert(by_port(dv0.take(j as int), p) + seq![xv] + Seq::<OwnershipRecordV>::empty()
                =~= by_port(dv0.take(j as int), p).push(xv));
            assert(by_port(dv0.take(j as int), p) + Seq::<OwnershipRecordV>::empty() =~= by_port(
                dv0.take(j as int),
                p,
            ));
        }
    }
}

/// Stable sort of the record set, ascending by local port; ties keep their
/// original enumeration order.
pub fn sort_records(records: Vec<OwnershipRecord>) -> (r: Vec<OwnershipRecord>)
    ensures
        stable_sort_of(r.deep_view(), records.deep_view()),
{
    let ghost orig = records.deep_view();
    let mut rest = records;
    let mut out: Vec<OwnershipRecord> = Vec::new();
    proof {
        assert(rest.deep_view() =~= orig.skip(0));
        assert(out.deep_view() =~= Seq::<OwnershipRecordV>::empty());
        assert(orig.take(0) =~= Seq::<OwnershipRecordV>::empty());
        assert forall|p: u16| #[trigger] by_port(out.deep_view(), p) == by_port(
            orig.take(0),
            p,
        ) by {
            lemma_filter_empty(port_pred(p));
        }
    }
    while rest.len() > 0
        invariant
            out.deep_view().len() + rest.deep_view().len() == orig.len(),
            rest.deep_view() == orig.skip(out.deep_view().len() as int),
            sorted_by_port(out.deep_view()),
            forall|p: u16| #[trigger] by_port(out.deep_view(), p) == by_port(
                orig.take(out.deep_view().len() as int),
                p,
            ),
        decreases rest.len(),
    {
        let ghost i = out.deep_view().len() as int;
        let ghost old_out = out.deep_view();
        let ghost old_rest = rest@;
        let x = rest.remove(0);
        proof {
            assert(x == old_rest[0]);
            assert(x@ == orig.skip(i)[0]);
            assert(orig.skip(i)[0] == orig[i]);
            assert forall|k: int| 0 <= k < rest@.len() implies rest.deep_view()[k] == orig.skip(
                i + 1,
            )[k] by {
                assert(rest.deep_view()[k] == rest@[k]@);
                assert(rest@[k] == old_rest[k + 1]);
                assert(old_rest[k + 1]@ == orig.skip(i)[k + 1]);
            }
            assert(rest.deep_view() =~= orig.skip(i + 1));
        }
        insert_sorted(&mut out, x);
        proof {
            assert forall|p: u16| #[trigger] by_port(out.deep_view(), p) == by_port(
                orig.take(i + 1),
                p,
            ) by {
                lemma_by_port_take_step(orig, i, p);
                if p == orig[i].socket.local_port {
                    assert(by_port(out.deep_view(), p) == by_port(old_out, p).push(orig[i]));
                } else {
                    assert(by_port(out.deep_view(), p) == by_port(old_out, p));
                }
            }
        }
    }
    proof {
        assert(rest.deep_view().len() == 0);
        assert(out.deep_view().len() == orig.len());
        assert(orig.take(orig.len() as int) =~= orig);
    }
    out
}

/// The subsequence of the record set whose local port equals `port`, in
/// original order; the input is unchanged.
pub fn filter_by_port(records: &Vec<OwnershipRecord>, port: u16) -> (r: Vec<OwnershipRecord>)
    ensures
        r.deep_view() == by_port(records.deep_view(), port),
{
    let n = records.len();
    let mut r: Vec<OwnershipRecord> = Vec::new();
    let mut i: usize = 0;
    proof {
        assert(records.deep_view().take(0) =~= Seq::<OwnershipRecordV>::empty());
        lemma_filter_empty(port_pred(port));
        assert(r.deep_view() =~= by_port(records.deep_view().take(0), port));
    }
    while i < n
        invariant
            n == records.len(),
            i <= n,
            r.deep_view() == by_port(records.deep_view().take(i as int), port),
        decreases n - i,
    {
        let ghost rd = records.deep_view();
        let ghost old_r = r.deep_view();
        proof {
            assert(rd[i as int] == records@[i as int]@);
            lemma_by_port_take_step(rd, i as int, port);
        }
        if records[i].socket.local_port == port {
            r.push(records[i].clone());
            proof {
                assert forall|k: int| 0 <= k < r.deep_view().len() implies r.deep_view()[k]
                    == by_port(rd.take(i as int + 1), port)[k] by {
                    assert(r.deep_view()[k] == r@[k]@);
                    if k < old_r.len() {
                        assert(r@[k]@ == old_r[k]);
                    } else {
                        assert(r@[k]@ == records@[i as int]@);
                    }
                }
                assert(r.deep_view() =~= by_port(rd.take(i as int + 1), port));
            }
        }
        i = i + 1;
    }
    proof {
        assert(records.deep_view().take(n as int) =~= records.deep_view());
    }
    r
}

/// Sorts the resolved record set and applies the requested filter.  A port
/// filter that matches nothing yields the `FilterMiss` signal, distinct from
/// an empty successful listing; a port matched by several records (distinct
/// protocol/family pairs sharing the port) returns them all.
pub fn assemble(records: Vec<OwnershipRecord>, filter: PortFilter) -> (r: Result<
    Vec<OwnershipRecord>,
    FilterMiss,
>)
    ensures
        filter is All ==> r is Ok && stable_sort_of(r->Ok_0.deep_view(), records.deep_view()),
        forall|p: u16|
            filter == PortFilter::Port(p) ==> if by_port(records.deep_view(), p).len() == 0 {
                &&& r is Err
                &&& r->Err_0 == (FilterMiss { port: p })
            } else {
                &&& r is Ok
                &&& r->Ok_0.deep_view() == by_port(records.deep_view(), p)
            },
{
    match filter {
        PortFilter::All => Ok(sort_records(records)),
        PortFilter::Port(p) => {
            let matching = filter_by_port(&records, p);
            if matching.len() == 0 {
                proof {
                    assert(by_port(records.deep_view(), p).len() == 0);
                }
                Err(FilterMiss { port: p })
            } else {
                Ok(matching)
            }
        },
    }
}

/// The whole pipeline over the captured inputs: resolve socket ownership,
/// enrich with user names, sort and filter.  This is the sole artifact the
/// presentation layer receives.
pub fn run(
    sockets: &Vec<SocketRecord>,
    snap: &Snapshot,
    dir: &UserDirectory,
    filter: PortFilter,
) -> (r: Result<Vec<OwnershipRecord>, FilterMiss>)
    ensures
        ({
            let full = enrich_spec(resolve_spec(sockets.deep_view(), snap@), dir@);
            &&& filter is All ==> r is Ok && stable_sort_of(r->Ok_0.deep_view(), full)
            &&& forall|p: u16|
                filter == PortFilter::Port(p) ==> if by_port(full, p).len() == 0 {
                    &&& r is Err
                    &&& r->Err_0 == (FilterMiss { port: p })
                } else {
                    &&& r is Ok
                    &&& r->Ok_0.deep_view() == by_port(full, p)
                }
        }),
{
    let resolved = resolve(sockets, snap);
    let enriched = enrich_users(&resolved, dir);
    assemble(enriched, filter)
}

} // verus!
