use sockowner::assemble::assemble;
use sockowner::assemble::run;
use sockowner::assemble::sort_records;
use sockowner::assemble::FilterMiss;
use sockowner::assemble::PortFilter;
use sockowner::enumerate::build_sockets;
use sockowner::enumerate::merge_enumerations;
use sockowner::enumerate::tcp_only;
use sockowner::enumerate::RawRow;
use sockowner::enumerate::TcpRow;
use sockowner::enumerate::UdpRow;
use sockowner::identity::enrich_users;
use sockowner::identity::UserDirectory;
use sockowner::identity::UserEntry;
use sockowner::records::Descriptor;
use sockowner::records::Family;
use sockowner::records::OwnershipRecord;
use sockowner::records::ProcessRecord;
use sockowner::records::Protocol;
use sockowner::records::SocketRecord;
use sockowner::records::TcpState;
use sockowner::resolve::resolve;
use sockowner::snapshot::ProcessEntry;
use sockowner::snapshot::Snapshot;

fn tcp_socket(local_port: u16, kernel_id: u64) -> SocketRecord {
    SocketRecord {
        protocol: Protocol::Tcp,
        family: Family::V4,
        local_addr: "0.0.0.0".to_string(),
        local_port,
        remote_addr: None,
        remote_port: None,
        state: Some(TcpState::Listen),
        kernel_id,
        direct_pids: None,
    }
}

fn process(pid: u32, uid: Option<u32>, name: &str, descriptors: Option<Vec<Descriptor>>) -> ProcessEntry {
    ProcessEntry {
        record: ProcessRecord {
            pid,
            user_id: uid,
            name: Some(name.to_string()),
            cmd: vec![name.to_string()],
            exe: None,
            cwd: None,
        },
        descriptors,
    }
}

// A listening TCP socket whose inode is held by one process resolves to that
// process, and the owner's uid resolves to its user name.
#[test]
fn resolves_listener_to_owner() {
    let sockets = vec![tcp_socket(8080, 12345)];
    let snap = Snapshot {
        procs: vec![process(
            42,
            Some(1000),
            "webserver",
            Some(vec![Descriptor::Other, Descriptor::SocketRef(12345)]),
        )],
    };
    let dir = UserDirectory { entries: vec![UserEntry { uid: 1000, name: "alice".to_string() }] };
    let result = run(&sockets, &snap, &dir, PortFilter::All).unwrap();
    assert_eq!(result.len(), 1);
    assert_eq!(result[0].socket.local_port, 8080);
    assert_eq!(result[0].socket.state, Some(TcpState::Listen));
    assert_eq!(result[0].processes.len(), 1);
    assert_eq!(result[0].processes[0].pid, 42);
    assert_eq!(result[0].processes[0].name.as_deref(), Some("webserver"));
    assert_eq!(result[0].user_name.as_deref(), Some("alice"));
}

// A socket no process references (kernel-owned or orphaned) still yields one
// record, with an empty process list and no user name.
#[test]
fn unowned_socket_keeps_its_row() {
    let sockets = vec![tcp_socket(8080, 12345)];
    let snap = Snapshot {
        procs: vec![process(42, Some(1000), "webserver", Some(vec![Descriptor::SocketRef(99)]))],
    };
    let dir = UserDirectory { entries: vec![UserEntry { uid: 1000, name: "alice".to_string() }] };
    let result = run(&sockets, &snap, &dir, PortFilter::All).unwrap();
    assert_eq!(result.len(), 1);
    assert!(result[0].processes.is_empty());
    assert_eq!(result[0].user_name, None);
}

// Two processes sharing descriptors to one inode (parent and forked child)
// are both recorded, in scan-encounter order.
#[test]
fn forked_owners_recorded_in_scan_order() {
    let sockets = vec![tcp_socket(80, 500)];
    let snap = Snapshot {
        procs: vec![
            process(10, Some(0), "parent", Some(vec![Descriptor::SocketRef(500)])),
            process(99, None, "bystander", Some(vec![Descriptor::Other])),
            process(11, Some(0), "child", Some(vec![Descriptor::SocketRef(500)])),
        ],
    };
    let dir = UserDirectory { entries: vec![] };
    let result = run(&sockets, &snap, &dir, PortFilter::All).unwrap();
    assert_eq!(result.len(), 1);
    let pids: Vec<u32> = result[0].processes.iter().map(|p| p.pid).collect();
    assert_eq!(pids, vec![10, 11]);
}

// A port filter that matches nothing yields the FilterMiss signal, distinct
// from an empty successful listing.
#[test]
fn filter_miss_is_distinguishable() {
    let sockets = vec![tcp_socket(8080, 1)];
    let snap = Snapshot { procs: vec![] };
    let dir = UserDirectory { entries: vec![] };
    let outcome = run(&sockets, &snap, &dir, PortFilter::Port(9999));
    assert_eq!(outcome, Err(FilterMiss { port: 9999 }));

    let no_sockets: Vec<SocketRecord> = vec![];
    let empty_listing = run(&no_sockets, &snap, &dir, PortFilter::All);
    assert_eq!(empty_listing, Ok(vec![]));
}

// Every enumerated socket produces exactly one ownership record, resolved or
// not.
#[test]
fn record_count_equals_socket_count() {
    let sockets = vec![tcp_socket(1, 10), tcp_socket(2, 20), tcp_socket(3, 30)];
    let snap = Snapshot {
        procs: vec![process(7, None, "svc", Some(vec![Descriptor::SocketRef(20)]))],
    };
    let records = resolve(&sockets, &snap);
    assert_eq!(records.len(), sockets.len());
    assert!(records[0].processes.is_empty());
    assert_eq!(records[1].processes.len(), 1);
    assert!(records[2].processes.is_empty());
}

// Running the resolver twice against the same captured input produces an
// identical ordered output.
#[test]
fn resolver_is_deterministic() {
    let sockets = vec![tcp_socket(443, 5), tcp_socket(80, 6)];
    let snap = Snapshot {
        procs: vec![
            process(1, Some(0), "a", Some(vec![Descriptor::SocketRef(6)])),
            process(2, Some(1), "b", Some(vec![Descriptor::SocketRef(5)])),
        ],
    };
    let dir = UserDirectory { entries: vec![UserEntry { uid: 0, name: "root".to_string() }] };
    let first = run(&sockets, &snap, &dir, PortFilter::All);
    let second = run(&sockets, &snap, &dir, PortFilter::All);
    assert_eq!(first, second);
}

// Filtering by a port returns exactly the records of the full listing whose
// local port matches, and all of them.
#[test]
fn port_filter_returns_exact_subset() {
    let sockets = vec![
        tcp_socket(80, 1),
        tcp_socket(443, 2),
        tcp_socket(80, 3),
        tcp_socket(22, 4),
    ];
    let snap = Snapshot { procs: vec![] };
    let dir = UserDirectory { entries: vec![] };
    let full = run(&sockets, &snap, &dir, PortFilter::All).unwrap();
    let filtered = run(&sockets, &snap, &dir, PortFilter::Port(80)).unwrap();
    let expected: Vec<&OwnershipRecord> =
        full.iter().filter(|r| r.socket.local_port == 80).collect();
    assert_eq!(filtered.len(), 2);
    assert_eq!(filtered.iter().collect::<Vec<_>>(), expected);
    let kernel_ids: Vec<u64> = filtered.iter().map(|r| r.socket.kernel_id).collect();
    assert_eq!(kernel_ids, vec![1, 3]);
}

// The listing is sorted ascending by local port, and records sharing a port
// keep their original enumeration order.
#[test]
fn sort_is_stable_and_ascending() {
    let records: Vec<OwnershipRecord> = vec![
        tcp_socket(443, 1),
        tcp_socket(80, 2),
        tcp_socket(443, 3),
        tcp_socket(22, 4),
        tcp_socket(80, 5),
    ]
    .into_iter()
    .map(|socket| OwnershipRecord { socket, processes: vec![], user_name: None })
    .collect();
    let sorted = sort_records(records);
    let order: Vec<(u16, u64)> =
        sorted.iter().map(|r| (r.socket.local_port, r.socket.kernel_id)).collect();
    assert_eq!(order, vec![(22, 4), (80, 2), (80, 5), (443, 1), (443, 3)]);
}

// The direct strategy looks each associated pid up in the snapshot; an id
// the snapshot does not know yields a placeholder record with only the pid.
#[test]
fn direct_strategy_uses_associated_pids() {
    let mut socket = tcp_socket(631, 77);
    socket.direct_pids = Some(vec![42, 43]);
    let snap = Snapshot { procs: vec![process(42, Some(7), "cupsd", None)] };
    let records = resolve(&vec![socket], &snap);
    assert_eq!(records[0].processes.len(), 2);
    assert_eq!(records[0].processes[0].pid, 42);
    assert_eq!(records[0].processes[0].name.as_deref(), Some("cupsd"));
    assert_eq!(records[0].processes[1].pid, 43);
    assert_eq!(records[0].processes[1].name, None);
    assert!(records[0].processes[1].cmd.is_empty());
}

// An unreadable descriptor table means "no match from this process", never
// an error; the scan goes on with the other processes.
#[test]
fn unreadable_descriptor_table_is_no_match() {
    let sockets = vec![tcp_socket(53, 900)];
    let snap = Snapshot {
        procs: vec![
            process(1, None, "blind", None),
            process(2, Some(5), "dns", Some(vec![Descriptor::SocketRef(900)])),
        ],
    };
    let records = resolve(&sockets, &snap);
    assert_eq!(records[0].processes.len(), 1);
    assert_eq!(records[0].processes[0].pid, 2);
}

// The derived user name comes from the first associated process; a uid with
// no account entry stays absent rather than failing.
#[test]
fn user_enrichment_uses_first_owner() {
    let socket = tcp_socket(25, 3);
    let record = OwnershipRecord {
        socket,
        processes: vec![
            ProcessRecord {
                pid: 9,
                user_id: Some(555),
                name: Some("mta".to_string()),
                cmd: vec![],
                exe: None,
                cwd: None,
            },
            ProcessRecord {
                pid: 10,
                user_id: Some(0),
                name: Some("helper".to_string()),
                cmd: vec![],
                exe: None,
                cwd: None,
            },
        ],
        user_name: None,
    };
    let known = UserDirectory { entries: vec![UserEntry { uid: 0, name: "root".to_string() }] };
    let enriched = enrich_users(&vec![record], &known);
    assert_eq!(enriched[0].user_name, None);
}

// The whole flow over a captured table: decode both families, merge, keep
// TCP, resolve and assemble; the listing comes out ascending by local port.
#[test]
fn whole_flow_yields_sorted_tcp_listing() {
    let rows4 = vec![
        RawRow::Tcp(TcpRow {
            family: Family::V4,
            local_addr: "0.0.0.0".to_string(),
            local_port: 443,
            remote_addr: Some("203.0.113.7".to_string()),
            remote_port: Some(55000),
            state: TcpState::Established,
            kernel_id: 1,
            direct_pids: Some(vec![31]),
        }),
        RawRow::Udp(UdpRow {
            family: Family::V4,
            local_addr: "0.0.0.0".to_string(),
            local_port: 53,
            kernel_id: 2,
            direct_pids: Some(vec![32]),
        }),
        RawRow::Malformed,
    ];
    let rows6 = vec![RawRow::Tcp(TcpRow {
        family: Family::V6,
        local_addr: "::".to_string(),
        local_port: 22,
        remote_addr: Some("::".to_string()),
        remote_port: Some(0),
        state: TcpState::Listen,
        kernel_id: 3,
        direct_pids: Some(vec![33]),
    })];
    let sockets = merge_enumerations(build_sockets(&rows4), build_sockets(&rows6));
    assert_eq!(sockets.len(), 3);
    let tcp = tcp_only(&sockets);
    assert_eq!(tcp.len(), 2);

    let snap = Snapshot {
        procs: vec![
            process(31, Some(1000), "browser", None),
            process(33, Some(0), "sshd", None),
        ],
    };
    let dir = UserDirectory {
        entries: vec![
            UserEntry { uid: 0, name: "root".to_string() },
            UserEntry { uid: 1000, name: "alice".to_string() },
        ],
    };
    let listing = run(&tcp, &snap, &dir, PortFilter::All).unwrap();
    assert_eq!(listing.len(), 2);
    assert_eq!(listing[0].socket.local_port, 22);
    assert_eq!(listing[0].processes[0].name.as_deref(), Some("sshd"));
    assert_eq!(listing[0].user_name.as_deref(), Some("root"));
    assert_eq!(listing[1].socket.local_port, 443);
    assert_eq!(listing[1].user_name.as_deref(), Some("alice"));
}

// Assembling with a port filter keeps every record of that port even when
// several protocol/family pairs share it.
#[test]
fn shared_port_returns_all_records() {
    let mut v6 = tcp_socket(8080, 2);
    v6.family = Family::V6;
    let records: Vec<OwnershipRecord> = vec![tcp_socket(8080, 1), v6]
        .into_iter()
        .map(|socket| OwnershipRecord { socket, processes: vec![], user_name: None })
        .collect();
    let out = assemble(records, PortFilter::Port(8080)).unwrap();
    assert_eq!(out.len(), 2);
    assert_eq!(out[0].socket.family, Family::V4);
    assert_eq!(out[1].socket.family, Family::V6);
}
