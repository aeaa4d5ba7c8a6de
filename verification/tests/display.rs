use sockowner::identity::UserDirectory;
use sockowner::identity::UserEntry;
use sockowner::records::ProcessRecord;
use sockowner::snapshot::ProcessEntry;
use sockowner::snapshot::Snapshot;
use sockowner::records::Family;
use sockowner::records::TcpState;
use sockowner::render::format_command_line;
use sockowner::render::format_remote_address;
use sockowner::render::get_protocol_string;
use sockowner::render::get_user_info;
use sockowner::render::tcp_state_to_str;
use sockowner::render::u64_to_string;

#[test]
fn decimal_rendering_is_exact() {
    assert_eq!(u64_to_string(0), "0");
    assert_eq!(u64_to_string(7), "7");
    assert_eq!(u64_to_string(10), "10");
    assert_eq!(u64_to_string(8080), "8080");
    assert_eq!(u64_to_string(65535), "65535");
    assert_eq!(u64_to_string(18446744073709551615), "18446744073709551615");
}

#[test]
fn empty_command_line_is_unknown() {
    let cmd: Vec<String> = vec![];
    assert_eq!(format_command_line(&cmd, 40), "unknown");
}

#[test]
fn short_command_line_is_joined_whole() {
    let cmd = vec!["nginx".to_string(), "-g".to_string(), "daemon off;".to_string()];
    assert_eq!(format_command_line(&cmd, 40), "nginx -g daemon off;");
}

#[test]
fn long_command_line_is_truncated_with_ellipsis() {
    let cmd = vec!["abcdefghij".to_string(), "klmnopqrst".to_string()];
    // joined: "abcdefghij klmnopqrst" (21 chars); budget 10 keeps 7 + "..."
    assert_eq!(format_command_line(&cmd, 10), "abcdefg...");
}

#[test]
fn tiny_budget_still_yields_ellipsis() {
    let cmd = vec!["abcdef".to_string()];
    assert_eq!(format_command_line(&cmd, 2), "...");
}

#[test]
fn exact_fit_is_not_truncated() {
    let cmd = vec!["abcde".to_string()];
    assert_eq!(format_command_line(&cmd, 5), "abcde");
}

#[test]
fn tcp_states_have_fixed_names() {
    assert_eq!(tcp_state_to_str(&Some(TcpState::Listen)), "LISTEN");
    assert_eq!(tcp_state_to_str(&Some(TcpState::SynSent)), "SYN_SENT");
    assert_eq!(tcp_state_to_str(&Some(TcpState::SynReceived)), "SYN_RECEIVED");
    assert_eq!(tcp_state_to_str(&Some(TcpState::Established)), "ESTABLISHED");
    assert_eq!(tcp_state_to_str(&Some(TcpState::FinWait1)), "FIN_WAIT_1");
    assert_eq!(tcp_state_to_str(&Some(TcpState::FinWait2)), "FIN_WAIT_2");
    assert_eq!(tcp_state_to_str(&Some(TcpState::CloseWait)), "CLOSE_WAIT");
    assert_eq!(tcp_state_to_str(&Some(TcpState::Closing)), "CLOSING");
    assert_eq!(tcp_state_to_str(&Some(TcpState::LastAck)), "LAST_ACK");
    assert_eq!(tcp_state_to_str(&Some(TcpState::TimeWait)), "TIME_WAIT");
    assert_eq!(tcp_state_to_str(&Some(TcpState::Closed)), "CLOSED");
    assert_eq!(tcp_state_to_str(&Some(TcpState::DeleteTcb)), "DELETE_TCB");
    assert_eq!(tcp_state_to_str(&Some(TcpState::Unknown)), "UNKNOWN");
    assert_eq!(tcp_state_to_str(&None), "UNKNOWN");
}

#[test]
fn protocol_label_follows_family() {
    assert_eq!(get_protocol_string(Family::V4), "TCP");
    assert_eq!(get_protocol_string(Family::V6), "TCP6");
}

#[test]
fn remote_address_formats_both_halves() {
    let addr = Some("192.168.1.9".to_string());
    let port = Some(443u16);
    assert_eq!(format_remote_address(&addr, &port), "192.168.1.9:443");
}

#[test]
fn absent_remote_address_is_a_dash() {
    assert_eq!(format_remote_address(&None, &None), "-");
    assert_eq!(format_remote_address(&Some("10.0.0.1".to_string()), &None), "-");
}

#[test]
fn user_info_resolves_known_uid() {
    let dir = UserDirectory { entries: vec![UserEntry { uid: 1000, name: "alice".to_string() }] };
    let (uid_str, user) = get_user_info(&Some(1000), &dir);
    assert_eq!(uid_str, "1000");
    assert_eq!(user, "alice");
}

#[test]
fn user_info_degrades_to_unknown() {
    let dir = UserDirectory { entries: vec![UserEntry { uid: 1000, name: "alice".to_string() }] };
    let (uid_str, user) = get_user_info(&Some(4242), &dir);
    assert_eq!(uid_str, "4242");
    assert_eq!(user, "unknown");

    let (no_uid_str, no_user) = get_user_info(&None, &dir);
    assert_eq!(no_uid_str, "unknown");
    assert_eq!(no_user, "unknown");
}

#[test]
fn snapshot_lookup_finds_first_match() {
    let snap = Snapshot {
        procs: vec![ProcessEntry {
            record: ProcessRecord {
                pid: 42,
                user_id: Some(1),
                name: Some("svc".to_string()),
                cmd: vec![],
                exe: Some("/usr/bin/svc".to_string()),
                cwd: Some("/".to_string()),
            },
            descriptors: None,
        }],
    };
    let hit = snap.lookup(42).unwrap();
    assert_eq!(hit.name.as_deref(), Some("svc"));
    assert!(snap.lookup(43).is_none());
}
