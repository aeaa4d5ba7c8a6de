use sockowner::enumerate::build_sockets;
use sockowner::enumerate::merge_enumerations;
use sockowner::enumerate::tcp_only;
use sockowner::enumerate::RawRow;
use sockowner::enumerate::TcpRow;
use sockowner::enumerate::UdpRow;
use sockowner::records::Family;
use sockowner::records::Protocol;
use sockowner::records::TcpState;

fn tcp_row(local_port: u16, kernel_id: u64) -> TcpRow {
    TcpRow {
        family: Family::V4,
        local_addr: "127.0.0.1".to_string(),
        local_port,
        remote_addr: Some("10.0.0.1".to_string()),
        remote_port: Some(443),
        state: TcpState::Established,
        kernel_id,
        direct_pids: None,
    }
}

fn udp_row(local_port: u16, kernel_id: u64) -> UdpRow {
    UdpRow {
        family: Family::V4,
        local_addr: "0.0.0.0".to_string(),
        local_port,
        kernel_id,
        direct_pids: None,
    }
}

// Readable rows decode in order; malformed rows are skipped silently and
// never abort the enumeration.
#[test]
fn malformed_rows_are_skipped() {
    let rows = vec![
        RawRow::Tcp(tcp_row(80, 1)),
        RawRow::Malformed,
        RawRow::Udp(udp_row(53, 2)),
        RawRow::Malformed,
    ];
    let sockets = build_sockets(&rows);
    assert_eq!(sockets.len(), 2);
    assert_eq!(sockets[0].local_port, 80);
    assert_eq!(sockets[0].protocol, Protocol::Tcp);
    assert_eq!(sockets[1].local_port, 53);
    assert_eq!(sockets[1].protocol, Protocol::Udp);
}

// A TCP row keeps its whole remote endpoint and its state; a UDP row gets
// neither.  The remote endpoint is all-or-nothing in every record.
#[test]
fn remote_endpoint_is_all_or_nothing() {
    let mut half = tcp_row(22, 3);
    half.remote_port = None;
    let rows = vec![
        RawRow::Tcp(tcp_row(80, 1)),
        RawRow::Udp(udp_row(53, 2)),
        RawRow::Tcp(half),
    ];
    let sockets = build_sockets(&rows);

    assert_eq!(sockets[0].remote_addr.as_deref(), Some("10.0.0.1"));
    assert_eq!(sockets[0].remote_port, Some(443));
    assert_eq!(sockets[0].state, Some(TcpState::Established));

    assert_eq!(sockets[1].remote_addr, None);
    assert_eq!(sockets[1].remote_port, None);
    assert_eq!(sockets[1].state, None);

    // the half-present remote endpoint is normalized away
    assert_eq!(sockets[2].remote_addr, None);
    assert_eq!(sockets[2].remote_port, None);

    for s in &sockets {
        assert_eq!(s.remote_addr.is_some(), s.remote_port.is_some());
    }
}

// Merging the two address families keeps both sequences whole, in order,
// without duplicating any record.
#[test]
fn families_merge_without_duplication() {
    let v4 = build_sockets(&vec![RawRow::Tcp(tcp_row(80, 1))]);
    let mut v6_row = tcp_row(80, 2);
    v6_row.family = Family::V6;
    let v6 = build_sockets(&vec![RawRow::Tcp(v6_row)]);
    let merged = merge_enumerations(v4, v6);
    assert_eq!(merged.len(), 2);
    assert_eq!(merged[0].family, Family::V4);
    assert_eq!(merged[1].family, Family::V6);
}

// The TCP-only view keeps exactly the TCP records, in order.
#[test]
fn tcp_only_drops_udp() {
    let rows = vec![
        RawRow::Udp(udp_row(53, 1)),
        RawRow::Tcp(tcp_row(80, 2)),
        RawRow::Udp(udp_row(123, 3)),
        RawRow::Tcp(tcp_row(443, 4)),
    ];
    let sockets = build_sockets(&rows);
    let tcp = tcp_only(&sockets);
    assert_eq!(tcp.len(), 2);
    assert_eq!(tcp[0].kernel_id, 2);
    assert_eq!(tcp[1].kernel_id, 4);
}
