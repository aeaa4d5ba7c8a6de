//! The library's general guarantees, stated once over the spec functions
//! that the executable contracts use, and proved here.

use vstd::prelude::*;

use crate::assemble::by_port;
use crate::assemble::lemma_filter_empty;
use crate::assemble::lemma_filter_singleton;
use crate::assemble::port_pred;
use crate::assemble::sorted_by_port;
use crate::assemble::stable_sort_of;
use crate::identity::enrich_spec;
use crate::identity::UserEntryV;
use crate::records::OwnershipRecordV;
use crate::records::SocketRecordV;
use crate::resolve::resolve_spec;
use crate::snapshot::ProcessEntryV;

verus! {

/// No socket is dropped: the resolver yields exactly one ownership record
/// per enumerated socket, in enumeration order, even when no owner could be
/// determined.
pub proof fn lemma_no_socket_dropped(sockets: Seq<SocketRecordV>, snap: Seq<ProcessEntryV>)
    ensures
        resolve_spec(sockets, snap).len() == sockets.len(),
        forall|i: int|
            0 <= i < sockets.len() ==> (#[trigger] resolve_spec(sockets, snap)[i]).socket
                == sockets[i],
{
}

/// User-name enrichment drops no record either: the whole resolved and
/// enriched record set has exactly one record per enumerated socket, with
/// the sockets unchanged.
pub proof fn lemma_record_count_preserved(
    sockets: Seq<SocketRecordV>,
    snap: Seq<ProcessEntryV>,
    dir: Seq<UserEntryV>,
)
    ensures
        enrich_spec(resolve_spec(sockets, snap), dir).len() == sockets.len(),
        forall|i: int|
            0 <= i < sockets.len() ==> (#[trigger] enrich_spec(
                resolve_spec(sockets, snap),
                dir,
            )[i]).socket == sockets[i],
{
}

/// Resolution is a pure function of the captured inputs: two runs of the
/// resolver against the same socket table and process snapshot yield the
/// same ordered output.
pub proof fn lemma_resolver_deterministic(
    sockets: Seq<SocketRecordV>,
    snap: Seq<ProcessEntryV>,
    r1: Seq<OwnershipRecordV>,
    r2: Seq<OwnershipRecordV>,
)
    requires
        r1 == resolve_spec(sockets, snap),
        r2 == resolve_spec(sockets, snap),
    ensures
        r1 == r2,
{
}

proof fn lemma_concat_cancel(
    c: Seq<OwnershipRecordV>,
    d1: Seq<OwnershipRecordV>,
    d2: Seq<OwnershipRecordV>,
)
    requires
        c + d1 == c + d2,
    ensures
        d1 == d2,
{
    assert((c + d1).len() == c.len() + d1.len());
    assert((c + d2).len() == c.len() + d2.len());
    assert(d1.len() == d2.len());
    assert forall|k: int| 0 <= k < d1.len() implies d1[k] == d2[k] by {
        assert((c + d1)[c.len() + k] == d1[k]);
        assert((c + d2)[c.len() + k] == d2[k]);
    }
    assert(d1 =~= d2);
}

/// When the first record matches the port, it is also the first record of
/// the port's filtered subsequence.
proof fn lemma_by_port_first(s: Seq<OwnershipRecordV>, p: u16)
    requires
        s.len() > 0,
        s[0].socket.local_port == p,
    ensures
        by_port(s, p).len() > 0,
        by_port(s, p)[0] == s[0],
{
    let pred = port_pred(p);
    assert(s =~= seq![s[0]] + s.drop_first());
    Seq::filter_distributes_over_add(seq![s[0]], s.drop_first(), pred);
    lemma_filter_singleton(s[0], pred);
    assert((seq![s[0]] + s.drop_first().filter(pred))[0] == s[0]);
}

/// Every record of a filtered subsequence occurs in the sequence it was
/// filtered from.
proof fn lemma_filter_index_member(
    s: Seq<OwnershipRecordV>,
    pred: spec_fn(OwnershipRecordV) -> bool,
    k: int,
)
    requires
        0 <= k < s.filter(pred).len(),
    ensures
        exists|i: int| 0 <= i < s.len() && s[i] == s.filter(pred)[k],
    decreases s.len(),
{
    reveal(Seq::filter);
    let sub = s.drop_last().filter(pred);
    if pred(s.last()) {
        if k < sub.len() {
            lemma_filter_index_member(s.drop_last(), pred, k);
            let i = choose|i: int|
                0 <= i < s.drop_last().len() && s.drop_last()[i] == s.drop_last().filter(pred)[k];
            assert(s[i] == s.filter(pred)[k]);
        } else {
            assert(s.filter(pred)[k] == s.last());
            assert(s[s.len() - 1] == s.filter(pred)[k]);
        }
    } else {
        lemma_filter_index_member(s.drop_last(), pred, k);
        let i = choose|i: int|
            0 <= i < s.drop_last().len() && s.drop_last()[i] == s.drop_last().filter(pred)[k];
        assert(s[i] == s.filter(pred)[k]);
    }
}

/// Two sorted sequences whose per-port subsequences agree begin with the
/// same record.
proof fn lemma_sorted_first_equal(a: Seq<OwnershipRecordV>, b: Seq<OwnershipRecordV>)
    requires
        a.len() > 0,
        b.len() > 0,
        sorted_by_port(a),
        sorted_by_port(b),
        forall|p: u16| #[trigger] by_port(a, p) == by_port(b, p),
    ensures
        a[0] == b[0],
{
    let pa = a[0].socket.local_port;
    let pb = b[0].socket.local_port;
    if pa < pb {
        lemma_by_port_first(a, pa);
        assert(by_port(b, pa).len() > 0);
        lemma_filter_index_member(b, port_pred(pa), 0);
        let i = choose|i: int| 0 <= i < b.len() && b[i] == b.filter(port_pred(pa))[0];
        b.lemma_filter_pred(port_pred(pa), 0);
        assert(b[i].socket.local_port == pa);
        assert(b[0].socket.local_port <= b[i].socket.local_port);
        assert(false);
    }
    if pb < pa {
        lemma_by_port_first(b, pb);
        assert(by_port(a, pb).len() > 0);
        lemma_filter_index_member(a, port_pred(pb), 0);
        let i = choose|i: int| 0 <= i < a.len() && a[i] == a.filter(port_pred(pb))[0];
        a.lemma_filter_pred(port_pred(pb), 0);
        assert(a[i].socket.local_port == pb);
        assert(a[0].socket.local_port <= a[i].socket.local_port);
        assert(false);
    }
    lemma_by_port_first(a, pa);
    lemma_by_port_first(b, pa);
}

proof fn lemma_sorted_filters_unique(a: Seq<OwnershipRecordV>, b: Seq<OwnershipRecordV>)
    requires
        sorted_by_port(a),
        sorted_by_port(b),
        forall|p: u16| #[trigger] by_port(a, p) == by_port(b, p),
    ensures
        a == b,
    decreases a.len(),
{
    if a.len() == 0 {
        if b.len() > 0 {
            let pb = b[0].socket.local_port;
            lemma_by_port_first(b, pb);
            lemma_filter_empty(port_pred(pb));
            assert(a =~= Seq::<OwnershipRecordV>::empty());
            assert(by_port(a, pb).len() == 0);
            assert(false);
        }
        assert(a =~= b);
    } else {
        if b.len() == 0 {
            let pa = a[0].socket.local_port;
            lemma_by_port_first(a, pa);
            lemma_filter_empty(port_pred(pa));
            assert(b =~= Seq::<OwnershipRecordV>::empty());
            assert(by_port(b, pa).len() == 0);
            assert(false);
        }
        lemma_sorted_first_equal(a, b);
        let x = a[0];
        let a1 = a.drop_first();
        let b1 = b.drop_first();
        assert forall|i: int, j: int| 0 <= i <= j < a1.len() implies (#[trigger] a1[i]).socket.local_port
            <= (#[trigger] a1[j]).socket.local_port by {
            assert(a1[i] == a[i + 1]);
            assert(a1[j] == a[j + 1]);
        }
        assert forall|i: int, j: int| 0 <= i <= j < b1.len() implies (#[trigger] b1[i]).socket.local_port
            <= (#[trigger] b1[j]).socket.local_port by {
            assert(b1[i] == b[i + 1]);
            assert(b1[j] == b[j + 1]);
        }
        assert forall|p: u16| #[trigger] by_port(a1, p) == by_port(b1, p) by {
            assert(a =~= seq![x] + a1);
            assert(b =~= seq![x] + b1);
            Seq::filter_distributes_over_add(seq![x], a1, port_pred(p));
            Seq::filter_distributes_over_add(seq![x], b1, port_pred(p));
            assert(by_port(a, p) == by_port(b, p));
            assert(by_port(a, p) == seq![x].filter(port_pred(p)) + by_port(a1, p));
            assert(by_port(b, p) == seq![x].filter(port_pred(p)) + by_port(b1, p));
            lemma_concat_cancel(seq![x].filter(port_pred(p)), by_port(a1, p), by_port(b1, p));
        }
        lemma_sorted_filters_unique(a1, b1);
        assert(a =~= seq![x] + a1);
        assert(b =~= seq![x] + b1);
        assert(a =~= b);
    }
}

/// The assembled listing is unique: its defining conditions (same length,
/// ascending ports, per-port order preserved) admit exactly one output for a
/// given record set, so two runs of the assembler against the same captured
/// input produce identical ordered output.
pub proof fn lemma_assembled_output_unique(
    inp: Seq<OwnershipRecordV>,
    r1: Seq<OwnershipRecordV>,
    r2: Seq<OwnershipRecordV>,
)
    requires
        stable_sort_of(r1, inp),
        stable_sort_of(r2, inp),
    ensures
        r1 == r2,
{
    lemma_sorted_filters_unique(r1, r2);
}

/// Filtering by a specific port returns exactly the subsequence of the full
/// (unfiltered, sorted) listing whose local port equals the requested value.
pub proof fn lemma_port_filter_exact(
    inp: Seq<OwnershipRecordV>,
    full: Seq<OwnershipRecordV>,
    p: u16,
)
    requires
        stable_sort_of(full, inp),
    ensures
        by_port(full, p) == by_port(inp, p),
{
}

} // verus!
