//! The data model: sockets, processes, descriptors and the joined
//! ownership record, together with their ghost views and well-formedness.

use vstd::prelude::*;

verus! {

/// Transport protocol of an enumerated socket.
#[derive(Clone, Copy, Debug, PartialEq, Eq, Structural)]
pub enum Protocol {
    Tcp,
    Udp,
}

/// Address family of an enumerated socket.
#[derive(Clone, Copy, Debug, PartialEq, Eq, Structural)]
pub enum Family {
    V4,
    V6,
}

/// TCP connection state: a closed enumeration.  Any raw state code outside
/// the known set maps to `Unknown`, never to a free-form string.
#[derive(Clone, Copy, Debug, PartialEq, Eq, Structural)]
pub enum TcpState {
    Listen,
    SynSent,
    SynReceived,
    Established,
    FinWait1,
    FinWait2,
    CloseWait,
    Closing,
    LastAck,
    TimeWait,
    Closed,
    DeleteTcb,
    Unknown,
}

/// One observed socket.
///
/// `kernel_id` is the opaque identifier (inode number or platform handle)
/// used only for correlation, never displayed.  `direct_pids` is present when
/// the platform's enumerator already supplies an OS-native per-socket owner
/// reference; when it is absent the resolver falls back to the indirect
/// descriptor-table scan keyed by `kernel_id`.
#[derive(Debug, PartialEq, Eq)]
pub struct SocketRecord {
    pub protocol: Protocol,
    pub family: Family,
    pub local_addr: String,
    pub local_port: u16,
    pub remote_addr: Option<String>,
    pub remote_port: Option<u16>,
    pub state: Option<TcpState>,
    pub kernel_id: u64,
    pub direct_pids: Option<Vec<u32>>,
}

/// Ghost view of a `SocketRecord`.
pub ghost struct SocketRecordV {
    pub protocol: Protocol,
    pub family: Family,
    pub local_addr: Seq<char>,
    pub local_port: u16,
    pub remote_addr: Option<Seq<char>>,
    pub remote_port: Option<u16>,
    pub state: Option<TcpState>,
    pub kernel_id: u64,
    pub direct_pids: Option<Seq<u32>>,
}

impl SocketRecordV {
    /// The socket invariant: a remote endpoint is all-or-nothing, and UDP
    /// sockets carry neither a remote endpoint nor a TCP state.
    pub open spec fn wf(self) -> bool {
        &&& self.remote_addr is Some <==> self.remote_port is Some
        &&& self.protocol is Udp ==> self.remote_addr is None && self.remote_port is None
            && self.state is None
        &&& self.protocol is Tcp ==> self.state is Some
    }
}

impl View for SocketRecord {
    type V = SocketRecordV;

    open spec fn view(&self) -> SocketRecordV {
        SocketRecordV {
            protocol: self.protocol,
            family: self.family,
            local_addr: self.local_addr@,
            local_port: self.local_port,
            remote_addr: self.remote_addr.deep_view(),
            remote_port: self.remote_port,
            state: self.state,
            kernel_id: self.kernel_id,
            direct_pids: self.direct_pids.deep_view(),
        }
    }
}

impl DeepView for SocketRecord {
    type V = SocketRecordV;

    open spec fn deep_view(&self) -> SocketRecordV {
        self.view()
    }
}

impl Clone for SocketRecord {
    fn clone(&self) -> (r: Self)
        ensures
            r@ == self@,
    {
        SocketRecord {
            protocol: self.protocol,
            family: self.family,
            local_addr: self.local_addr.clone(),
            local_port: self.local_port,
            remote_addr: clone_opt_string(&self.remote_addr),
            remote_port: self.remote_port,
            state: self.state,
            kernel_id: self.kernel_id,
            direct_pids: clone_opt_pids(&self.direct_pids),
        }
    }
}

/// One observed process.  A process that exited mid-scan yields a record
/// with only `pid` populated; absent fields are explicit options, never an
/// error.
#[derive(Debug, PartialEq, Eq)]
pub struct ProcessRecord {
    pub pid: u32,
    pub user_id: Option<u32>,
    pub name: Option<String>,
    pub cmd: Vec<String>,
    pub exe: Option<String>,
    pub cwd: Option<String>,
}

/// Ghost view of a `ProcessRecord`.
pub ghost struct ProcessRecordV {
    pub pid: u32,
    pub user_id: Option<u32>,
    pub name: Option<Seq<char>>,
    pub cmd: Seq<Seq<char>>,
    pub exe: Option<Seq<char>>,
    pub cwd: Option<Seq<char>>,
}

impl View for ProcessRecord {
    type V = ProcessRecordV;

    open spec fn view(&self) -> ProcessRecordV {
        ProcessRecordV {
            pid: self.pid,
            user_id: self.user_id,
            name: self.name.deep_view(),
            cmd: self.cmd.deep_view(),
            exe: self.exe.deep_view(),
            cwd: self.cwd.deep_view(),
        }
    }
}

impl DeepView for ProcessRecord {
    type V = ProcessRecordV;

    open spec fn deep_view(&self) -> ProcessRecordV {
        self.view()
    }
}

impl Clone for ProcessRecord {
    fn clone(&self) -> (r: Self)
        ensures
            r@ == self@,
    {
        let r = ProcessRecord {
            pid: self.pid,
            user_id: self.user_id,
            name: clone_opt_string(&self.name),
            cmd: clone_strings(&self.cmd),
            exe: clone_opt_string(&self.exe),
            cwd: clone_opt_string(&self.cwd),
        };
        proof {
            assert(r@.cmd =~= self@.cmd);
        }
        r
    }
}

/// One entry of a process's open-descriptor table, as read from the host:
/// either a symbolic reference to a socket exposing its inode, or anything
/// else (skipped by the resolver, never an error).
#[derive(Clone, Copy, Debug, PartialEq, Eq, Structural)]
pub enum Descriptor {
    SocketRef(u64),
    Other,
}

impl View for Descriptor {
    type V = Descriptor;

    open spec fn view(&self) -> Descriptor {
        *self
    }
}

impl DeepView for Descriptor {
    type V = Descriptor;

    open spec fn deep_view(&self) -> Descriptor {
        *self
    }
}

/// The joined artifact: one socket plus the ordered processes that own it
/// (empty when no owner could be determined) plus the resolved user name of
/// the first owner, if any.
#[derive(Debug, PartialEq, Eq)]
pub struct OwnershipRecord {
    pub socket: SocketRecord,
    pub processes: Vec<ProcessRecord>,
    pub user_name: Option<String>,
}

/// Ghost view of an `OwnershipRecord`.
pub ghost struct OwnershipRecordV {
    pub socket: SocketRecordV,
    pub processes: Seq<ProcessRecordV>,
    pub user_name: Option<Seq<char>>,
}

impl View for OwnershipRecord {
    type V = OwnershipRecordV;

    open spec fn view(&self) -> OwnershipRecordV {
        OwnershipRecordV {
            socket: self.socket@,
            processes: self.processes.deep_view(),
            user_name: self.user_name.deep_view(),
        }
    }
}

impl DeepView for OwnershipRecord {
    type V = OwnershipRecordV;

    open spec fn deep_view(&self) -> OwnershipRecordV {
        self.view()
    }
}

impl Clone for OwnershipRecord {
    fn clone(&self) -> (r: Self)
        ensures
            r@ == self@,
    {
        let r = OwnershipRecord {
            socket: self.socket.clone(),
            processes: clone_processes(&self.processes),
            user_name: clone_opt_string(&self.user_name),
        };
        proof {
            assert(r@.processes =~= self@.processes);
        }
        r
    }
}

/// The fatal error of a run: the kernel's socket table could not be read at
/// all.  Every other gap is absorbed locally with an absent value.
#[derive(Debug, PartialEq, Eq)]
pub struct EnumerationError {
    pub detail: String,
}

fn clone_opt_string(o: &Option<String>) -> (r: Option<String>)
    ensures
        r.deep_view() == o.deep_view(),
{
    match o {
        Some(s) => Some(s.clone()),
        None => None,
    }
}

pub(crate) fn clone_opt_pids(o: &Option<Vec<u32>>) -> (r: Option<Vec<u32>>)
    ensures
        r.deep_view() == o.deep_view(),
{
    match o {
        Some(v) => {
            let c = v.clone();
            proof {
                assert(c.deep_view() =~= v.deep_view());
            }
            Some(c)
        },
        None => None,
    }
}

fn clone_strings(v: &Vec<String>) -> (r: Vec<String>)
    ensures
        r.deep_view() == v.deep_view(),
{
    let r = v.clone();
    proof {
        assert(r.deep_view() =~= v.deep_view());
    }
    r
}

fn clone_processes(v: &Vec<ProcessRecord>) -> (r: Vec<ProcessRecord>)
    ensures
        r.deep_view() == v.deep_view(),
{
    let r = v.clone();
    proof {
        assert(r.deep_view() =~= v.deep_view());
    }
    r
}

} // verus!
