//! The socket enumerator's computing half: turns raw rows of the kernel's
//! socket table, already decoded to plain values by the boundary layer, into
//! well-formed socket records, merging address families into one sequence.
//! A malformed row (a partial read, a socket that closed during the scan) is
//! skipped silently and never aborts the enumeration.

use vstd::prelude::*;

use crate::records::clone_opt_pids;
use crate::records::Family;
use crate::records::Protocol;
use crate::records::SocketRecord;
use crate::records::SocketRecordV;
use crate::records::TcpState;

verus! {

/// One raw TCP row of the kernel table.  The remote endpoint may be absent
/// (an unconnected socket); a row carrying only half a remote endpoint is
/// normalized to no remote endpoint at all.
#[derive(Debug, PartialEq, Eq)]
pub struct TcpRow {
    pub family: Family,
    pub local_addr: String,
    pub local_port: u16,
    pub remote_addr: Option<String>,
    pub remote_port: Option<u16>,
    pub state: TcpState,
    pub kernel_id: u64,
    pub direct_pids: Option<Vec<u32>>,
}

/// One raw UDP row of the kernel table.
#[derive(Debug, PartialEq, Eq)]
pub struct UdpRow {
    pub family: Family,
    pub local_addr: String,
    pub local_port: u16,
    pub kernel_id: u64,
    pub direct_pids: Option<Vec<u32>>,
}

/// One row of the kernel's socket table as handed in by the boundary layer:
/// a decoded TCP or UDP row, or a row that could not be read whole.
#[derive(Debug, PartialEq, Eq)]
pub enum RawRow {
    Tcp(TcpRow),
    Udp(UdpRow),
    Malformed,
}

/// Ghost view of a `TcpRow`.
pub ghost struct TcpRowV {
    pub family: Family,
    pub local_addr: Seq<char>,
    pub local_port: u16,
    pub remote_addr: Option<Seq<char>>,
    pub remote_port: Option<u16>,
    pub state: TcpState,
    pub kernel_id: u64,
    pub direct_pids: Option<Seq<u32>>,
}

/// Ghost view of a `UdpRow`.
pub ghost struct UdpRowV {
    pub family: Family,
    pub local_addr: Seq<char>,
    pub local_port: u16,
    pub kernel_id: u64,
    pub direct_pids: Option<Seq<u32>>,
}

/// Ghost view of a `RawRow`.
pub ghost enum RawRowV {
    Tcp(TcpRowV),
    Udp(UdpRowV),
    Malformed,
}

impl View for TcpRow {
    type V = TcpRowV;

    open spec fn view(&self) -> TcpRowV {
        TcpRowV {
            family: self.family,
            local_addr: self.local_addr@,
            local_port: self.local_port,
            remote_addr: self.remote_addr.deep_view(),
            remote_port: self.remote_port,
            state: self.state,
            kernel_id: self.kernel_id,
            direct_pids: self.direct_pids.deep_view(),
        }
    }
}

impl View for UdpRow {
    type V = UdpRowV;

    open spec fn view(&self) -> UdpRowV {
        UdpRowV {
            family: self.family,
            local_addr: self.local_addr@,
            local_port: self.local_port,
            kernel_id: self.kernel_id,
            direct_pids: self.direct_pids.deep_view(),
        }
    }
}

impl View for RawRow {
    type V = RawRowV;

    open spec fn view(&self) -> RawRowV {
        match self {
            RawRow::Tcp(t) => RawRowV::Tcp(t@),
            RawRow::Udp(u) => RawRowV::Udp(u@),
            RawRow::Malformed => RawRowV::Malformed,
        }
    }
}

impl DeepView for RawRow {
    type V = RawRowV;

    open spec fn deep_view(&self) -> RawRowV {
        self.view()
    }
}

/// The socket record a TCP row decodes to: the remote endpoint is kept only
/// when both halves are present, so the record's invariant holds whatever
/// the row held.
pub open spec fn tcp_socket(t: TcpRowV) -> SocketRecordV {
    let whole = t.remote_addr is Some && t.remote_port is Some;
    SocketRecordV {
        protocol: Protocol::Tcp,
        family: t.family,
        local_addr: t.local_addr,
        local_port: t.local_port,
        remote_addr: if whole {
            t.remote_addr
        } else {
            None
        },
        remote_port: if whole {
            t.remote_port
        } else {
            None
        },
        state: Some(t.state),
        kernel_id: t.kernel_id,
        direct_pids: t.direct_pids,
    }
}

/// The socket record a UDP row decodes to: no remote endpoint, no state.
pub open spec fn udp_socket(u: UdpRowV) -> SocketRecordV {
    SocketRecordV {
        protocol: Protocol::Udp,
        family: u.family,
        local_addr: u.local_addr,
        local_port: u.local_port,
        remote_addr: None,
        remote_port: None,
        state: None,
        kernel_id: u.kernel_id,
        direct_pids: u.direct_pids,
    }
}

/// The socket records of a raw table: every readable row decodes to one
/// record, in table order; malformed rows are skipped.
pub open spec fn build_spec(rows: Seq<RawRowV>) -> Seq<SocketRecordV>
    decreases rows.len(),
{
    if rows.len() == 0 {
        Seq::empty()
    } else {
        let pre = build_spec(rows.drop_last());
        match rows.last() {
            RawRowV::Tcp(t) => pre.push(tcp_socket(t)),
            RawRowV::Udp(u) => pre.push(udp_socket(u)),
            RawRowV::Malformed => pre,
        }
    }
}

/// Every record the enumerator builds is well formed: the remote endpoint is
/// all-or-nothing, and UDP rows yield neither a remote endpoint nor a state.
pub proof fn lemma_build_spec_wf(rows: Seq<RawRowV>)
    ensures
        forall|k: int| 0 <= k < build_spec(rows).len() ==> (#[trigger] build_spec(rows)[k]).wf(),
    decreases rows.len(),
{
    if rows.len() > 0 {
        lemma_build_spec_wf(rows.drop_last());
        let pre = build_spec(rows.drop_last());
        match rows.last() {
            RawRowV::Tcp(t) => {
                assert(tcp_socket(t).wf());
            },
            RawRowV::Udp(u) => {
                assert(udp_socket(u).wf());
            },
            RawRowV::Malformed => {},
        }
        assert forall|k: int| 0 <= k < build_spec(rows).len() implies (#[trigger] build_spec(
            rows,
        )[k]).wf() by {
            if k < pre.len() {
                assert(build_spec(rows)[k] == pre[k]);
                assert(pre[k].wf());
            }
        }
    }
}

fn decode_tcp(t: &TcpRow) -> (r: SocketRecord)
    ensures
        r@ == tcp_socket(t@),
{
    let (remote_addr, remote_port) = match (&t.remote_addr, &t.remote_port) {
        (Some(a), Some(p)) => (Some(a.clone()), Some(*p)),
        _ => (None, None),
    };
    SocketRecord {
        protocol: Protocol::Tcp,
        family: t.family,
        local_addr: t.local_addr.clone(),
        local_port: t.local_port,
        remote_addr,
        remote_port,
        state: Some(t.state),
        kernel_id: t.kernel_id,
        direct_pids: clone_opt_pids(&t.direct_pids),
    }
}

fn decode_udp(u: &UdpRow) -> (r: SocketRecord)
    ensures
        r@ == udp_socket(u@),
{
    SocketRecord {
        protocol: Protocol::Udp,
        family: u.family,
        local_addr: u.local_addr.clone(),
        local_port: u.local_port,
        remote_addr: None,
        remote_port: None,
        state: None,
        kernel_id: u.kernel_id,
        direct_pids: clone_opt_pids(&u.direct_pids),
    }
}

/// Decodes one captured kernel table into socket records, skipping malformed
/// rows; a single bad row never aborts the whole enumeration.  Every record
/// returned is well formed.
pub fn build_sockets(rows: &Vec<RawRow>) -> (r: Vec<SocketRecord>)
    ensures
        r.deep_view() == build_spec(rows.deep_view()),
        forall|k: int| 0 <= k < r.deep_view().len() ==> (#[trigger] r.deep_view()[k]).wf(),
{
    let n = rows.len();
    let mut r: Vec<SocketRecord> = Vec::new();
    let mut i: usize = 0;
    proof {
        assert(rows.deep_view().take(0) =~= Seq::<RawRowV>::empty());
        assert(r.deep_view() =~= build_spec(rows.deep_view().take(0)));
    }
    while i < n
        invariant
            n == rows.len(),
            i <= n,
            r.deep_view() == build_spec(rows.deep_view().take(i as int)),
        decreases n - i,
    {
        let ghost rd = rows.deep_view();
        let ghost pre = rd.take(i as int);
        let ghost cur = rd.take(i as int + 1);
        let ghost old_r = r.deep_view();
        proof {
            assert(cur.drop_last() =~= pre);
            assert(cur.last() == rd[i as int]);
            assert(rd[i as int] == rows@[i as int]@);
        }
        let row = &rows[i];
        match row {
            RawRow::Tcp(t) => {
                r.push(decode_tcp(t));
            },
            RawRow::Udp(u) => {
                r.push(decode_udp(u));
            },
            RawRow::Malformed => {},
        }
        proof {
            assert forall|k: int| 0 <= k < r.deep_view().len() implies r.deep_view()[k]
                == build_spec(cur)[k] by {
                assert(r.deep_view()[k] == r@[k]@);
                if k < old_r.len() {
                    assert(r@[k]@ == old_r[k]);
                }
            }
            assert(r.deep_view() =~= build_spec(cur));
        }
        i = i + 1;
    }
    proof {
        assert(rows.deep_view().take(n as int) =~= rows.deep_view());
        lemma_build_spec_wf(rows.deep_view());
    }
    r
}

/// Merges two enumerations (one per address family) into one sequence, in
/// order, without touching any record.
pub fn merge_enumerations(a: Vec<SocketRecord>, b: Vec<SocketRecord>) -> (r: Vec<SocketRecord>)
    ensures
        r.deep_view() == a.deep_view() + b.deep_view(),
{
    let ghost av = a.deep_view();
    let ghost bv = b.deep_view();
    let mut a = a;
    let mut b = b;
    a.append(&mut b);
    proof {
        assert forall|k: int| 0 <= k < a.deep_view().len() implies a.deep_view()[k] == (av
            + bv)[k] by {
            assert(a.deep_view()[k] == a@[k]@);
        }
        assert(a.deep_view() =~= av + bv);
    }
    a
}

/// The TCP records of an enumeration, in order.
pub open spec fn tcp_sockets_of(s: Seq<SocketRecordV>) -> Seq<SocketRecordV> {
    s.filter(|r: SocketRecordV| r.protocol is Tcp)
}

/// Keeps only the TCP sockets of an enumeration, in order.
pub fn tcp_only(sockets: &Vec<SocketRecord>) -> (r: Vec<SocketRecord>)
    ensures
        r.deep_view() == tcp_sockets_of(sockets.deep_view()),
{
    let n = sockets.len();
    let mut r: Vec<SocketRecord> = Vec::new();
    let mut i: usize = 0;
    proof {
        reveal(Seq::filter);
        assert(sockets.deep_view().take(0) =~= Seq::<SocketRecordV>::empty());
        assert(r.deep_view() =~= tcp_sockets_of(sockets.deep_view().take(0)));
    }
    while i < n
        invariant
            n == sockets.len(),
            i <= n,
            r.deep_view() == tcp_sockets_of(sockets.deep_view().take(i as int)),
        decreases n - i,
    {
        let ghost sd = sockets.deep_view();
        let ghost pre = sd.take(i as int);
        let ghost cur = sd.take(i as int + 1);
        let ghost old_r = r.deep_view();
        proof {
            reveal(Seq::filter);
            assert(cur.drop_last() =~= pre);
            assert(cur.last() == sd[i as int]);
            assert(sd[i as int] == sockets@[i as int]@);
        }
        let is_tcp = match sockets[i].protocol {
            Protocol::Tcp => true,
            Protocol::Udp => false,
        };
        if is_tcp {
            r.push(sockets[i].clone());
            proof {
                reveal(Seq::filter);
                assert forall|k: int| 0 <= k < r.deep_view().len() implies r.deep_view()[k]
                    == tcp_sockets_of(cur)[k] by {
                    assert(r.deep_view()[k] == r@[k]@);
                    if k < old_r.len() {
                        assert(r@[k]@ == old_r[k]);
                    } else {
                        assert(cur.filter(|x: SocketRecordV| x.protocol is Tcp)[k] == cur.last());
                        assert(r@[k]@ == sockets@[i as int]@);
                    }
                }
                assert(r.deep_view() =~= tcp_sockets_of(cur));
            }
        } else {
            proof {
                reveal(Seq::filter);
                assert(r.deep_view() =~= tcp_sockets_of(cur));
            }
        }
        i = i + 1;
    }
    proof {
        assert(sockets.deep_view().take(n as int) =~= sockets.deep_view());
    }
    r
}

} // verus!
