//! Text shaping for the presentation layer: decimal rendering, command-line
//! joining and truncation, and the fixed names of states and protocols.
//! Every helper degrades to an explicit "unknown" sentinel instead of
//! omitting a value.

use vstd::prelude::*;
use vstd::string::StrSliceExecFns;
use vstd::string::StringExecFns;

use crate::identity::spec_user_lookup;
use crate::identity::UserDirectory;
use crate::identity::UserEntryV;
use crate::records::Family;
use crate::records::TcpState;

verus! {

/// The decimal digit character of `d` (for `d` up to nine).
pub open spec fn dec_digit(d: nat) -> char
    recommends
        d < 10,
{
    if d == 0 {
        '0'
    } else if d == 1 {
        '1'
    } else if d == 2 {
        '2'
    } else if d == 3 {
        '3'
    } else if d == 4 {
        '4'
    } else if d == 5 {
        '5'
    } else if d == 6 {
        '6'
    } else if d == 7 {
        '7'
    } else if d == 8 {
        '8'
    } else {
        '9'
    }
}

/// The decimal representation of `n`, most significant digit first, with no
/// leading zero except for zero itself.
pub open spec fn dec_rep(n: nat) -> Seq<char>
    decreases n,
{
    if n < 10 {
        seq![dec_digit(n)]
    } else {
        dec_rep(n / 10).push(dec_digit(n % 10))
    }
}

fn digit_str(d: u64) -> (r: &'static str)
    requires
        d < 10,
    ensures
        r@ == seq![dec_digit(d as nat)],
{
    proof {
        reveal_strlit("0");
        reveal_strlit("1");
        reveal_strlit("2");
        reveal_strlit("3");
        reveal_strlit("4");
        reveal_strlit("5");
        reveal_strlit("6");
        reveal_strlit("7");
        reveal_strlit("8");
        reveal_strlit("9");
    }
    if d == 0 {
        proof {
            assert("0"@ =~= seq!['0']);
        }
        "0"
    } else if d == 1 {
        proof {
            assert("1"@ =~= seq!['1']);
        }
        "1"
    } else if d == 2 {
        proof {
            assert("2"@ =~= seq!['2']);
        }
        "2"
    } else if d == 3 {
        proof {
            assert("3"@ =~= seq!['3']);
        }
        "3"
    } else if d == 4 {
        proof {
            assert("4"@ =~= seq!['4']);
        }
        "4"
    } else if d == 5 {
        proof {
            assert("5"@ =~= seq!['5']);
        }
        "5"
    } else if d == 6 {
        proof {
            assert("6"@ =~= seq!['6']);
        }
        "6"
    } else if d == 7 {
        proof {
            assert("7"@ =~= seq!['7']);
        }
        "7"
    } else if d == 8 {
        proof {
            assert("8"@ =~= seq!['8']);
        }
        "8"
    } else {
        proof {
            assert("9"@ =~= seq!['9']);
        }
        "9"
    }
}

/// Renders an unsigned number in decimal.
pub fn u64_to_string(n: u64) -> (r: String)
    ensures
        r@ == dec_rep(n as nat),
    decreases n,
{
    if n < 10 {
        String::from_str(digit_str(n))
    } else {
        let mut s = u64_to_string(n / 10);
        s.append(digit_str(n % 10));
        proof {
            assert(s@ =~= dec_rep(n as nat));
        }
        s
    }
}

/// The parts joined by single spaces, in order.
pub open spec fn join_spec(parts: Seq<Seq<char>>) -> Seq<char>
    decreases parts.len(),
{
    if parts.len() == 0 {
        Seq::empty()
    } else if parts.len() == 1 {
        parts[0]
    } else {
        join_spec(parts.drop_last()) + seq![' '] + parts.last()
    }
}

fn join_all(parts: &[String]) -> (r: String)
    ensures
        r@ == join_spec(parts.deep_view()),
{
    let n = parts.len();
    if n == 0 {
        let r = String::new();
        proof {
            assert(r@ =~= join_spec(parts.deep_view()));
        }
        return r;
    }
    let mut s = parts[0].clone();
    let mut i: usize = 1;
    proof {
        assert(parts.deep_view().take(1).len() == 1);
        assert(parts.deep_view().take(1)[0] == parts@[0]@);
    }
    while i < n
        invariant
            n == parts@.len(),
            1 <= i <= n,
            s@ == join_spec(parts.deep_view().take(i as int)),
        decreases n - i,
    {
        let ghost pd = parts.deep_view();
        let ghost pre = pd.take(i as int);
        let ghost cur = pd.take(i as int + 1);
        s.append(" ");
        s.append(parts[i].as_str());
        proof {
            reveal_strlit(" ");
            assert(" "@ =~= seq![' ']);
            assert(cur.drop_last() =~= pre);
            assert(cur.last() == pd[i as int]);
            assert(pd[i as int] == parts@[i as int]@);
            assert(s@ =~= join_spec(cur));
        }
        i = i + 1;
    }
    proof {
        assert(parts.deep_view().take(n as int) =~= parts.deep_view());
    }
    s
}

/// `full` cut to the display budget: unchanged when it fits, else its first
/// characters with a three-dot ellipsis in the budget's last three places.
pub open spec fn truncated(full: Seq<char>, max: nat) -> Seq<char> {
    if full.len() <= max {
        full
    } else {
        full.take(if max >= 3 {
            (max - 3) as int
        } else {
            0
        }) + "..."@
    }
}

/// The command line for display: the arguments joined by spaces, truncated
/// to `max` characters, or the "unknown" sentinel when no argument was
/// captured.
pub open spec fn format_command_line_spec(cmd: Seq<Seq<char>>, max: nat) -> Seq<char> {
    if cmd.len() == 0 {
        "unknown"@
    } else {
        truncated(join_spec(cmd), max)
    }
}

/// Formats a captured command line for display, truncating it to
/// `max_length` characters with an ellipsis.
pub fn format_command_line(cmd: &[String], max_length: usize) -> (r: String)
    ensures
        r@ == format_command_line_spec(cmd.deep_view(), max_length as nat),
{
    if cmd.len() == 0 {
        return String::from_str("unknown");
    }
    let full = join_all(cmd);
    let chars = full.as_str().unicode_len();
    if chars <= max_length {
        full
    } else {
        let cut = if max_length >= 3 {
            max_length - 3
        } else {
            0
        };
        let head = full.as_str().substring_char(0, cut);
        let mut s = head.to_owned();
        s.append("...");
        proof {
            assert(full@.subrange(0, cut as int) == full@.take(cut as int));
        }
        s
    }
}

/// The display name of a TCP state; anything unknown, including a missing
/// state, renders as the "UNKNOWN" sentinel.
pub open spec fn tcp_state_str(state: Option<TcpState>) -> Seq<char> {
    match state {
        Some(TcpState::Listen) => "LISTEN"@,
        Some(TcpState::SynSent) => "SYN_SENT"@,
        Some(TcpState::SynReceived) => "SYN_RECEIVED"@,
        Some(TcpState::Established) => "ESTABLISHED"@,
        Some(TcpState::FinWait1) => "FIN_WAIT_1"@,
        Some(TcpState::FinWait2) => "FIN_WAIT_2"@,
        Some(TcpState::CloseWait) => "CLOSE_WAIT"@,
        Some(TcpState::Closing) => "CLOSING"@,
        Some(TcpState::LastAck) => "LAST_ACK"@,
        Some(TcpState::TimeWait) => "TIME_WAIT"@,
        Some(TcpState::Closed) => "CLOSED"@,
        Some(TcpState::DeleteTcb) => "DELETE_TCB"@,
        Some(TcpState::Unknown) => "UNKNOWN"@,
        None => "UNKNOWN"@,
    }
}

/// The display name of a TCP state.
pub fn tcp_state_to_str(state: &Option<TcpState>) -> (r: &'static str)
    ensures
        r@ == tcp_state_str(*state),
{
    match state {
        Some(TcpState::Listen) => "LISTEN",
        Some(TcpState::SynSent) => "SYN_SENT",
        Some(TcpState::SynReceived) => "SYN_RECEIVED",
        Some(TcpState::Established) => "ESTABLISHED",
        Some(TcpState::FinWait1) => "FIN_WAIT_1",
        Some(TcpState::FinWait2) => "FIN_WAIT_2",
        Some(TcpState::CloseWait) => "CLOSE_WAIT",
        Some(TcpState::Closing) => "CLOSING",
        Some(TcpState::LastAck) => "LAST_ACK",
        Some(TcpState::TimeWait) => "TIME_WAIT",
        Some(TcpState::Closed) => "CLOSED",
        Some(TcpState::DeleteTcb) => "DELETE_TCB",
        Some(TcpState::Unknown) => "UNKNOWN",
        None => "UNKNOWN",
    }
}

/// The protocol label of a TCP listing row, by address family.
pub open spec fn proto_str(family: Family) -> Seq<char> {
    match family {
        Family::V4 => "TCP"@,
        Family::V6 => "TCP6"@,
    }
}

/// The protocol label of a TCP listing row, by address family.
pub fn get_protocol_string(family: Family) -> (r: &'static str)
    ensures
        r@ == proto_str(family),
{
    match family {
        Family::V4 => "TCP",
        Family::V6 => "TCP6",
    }
}

/// The display form of a remote endpoint: `address:port` when both halves
/// are present, a dash otherwise.
pub open spec fn remote_display(addr: Option<Seq<char>>, port: Option<u16>) -> Seq<char> {
    match (addr, port) {
        (Some(a), Some(p)) => a + seq![':'] + dec_rep(p as nat),
        _ => "-"@,
    }
}

/// Formats a remote endpoint for display.
pub fn format_remote_address(remote_addr: &Option<String>, remote_port: &Option<u16>) -> (r:
    String)
    ensures
        r@ == remote_display(remote_addr.deep_view(), *remote_port),
{
    match (remote_addr, remote_port) {
        (Some(a), Some(p)) => {
            let mut s = a.clone();
            s.append(":");
            let ps = u64_to_string(*p as u64);
            s.append(ps.as_str());
            proof {
                reveal_strlit(":");
                assert(":"@ =~= seq![':']);
                assert(s@ =~= remote_display(remote_addr.deep_view(), *remote_port));
            }
            s
        },
        _ => String::from_str("-"),
    }
}

/// The display form of a user id: its decimal digits, or the "unknown"
/// sentinel when no id was captured.
pub open spec fn uid_display(uid: Option<u32>) -> Seq<char> {
    match uid {
        Some(u) => dec_rep(u as nat),
        None => "unknown"@,
    }
}

/// The display form of a user name: the directory's name for the id, or the
/// "unknown" sentinel when the id is absent or has no account entry.
pub open spec fn user_display(uid: Option<u32>, dir: Seq<UserEntryV>) -> Seq<char> {
    match uid {
        Some(u) => match spec_user_lookup(dir, u) {
            Some(n) => n,
            None => "unknown"@,
        },
        None => "unknown"@,
    }
}

/// Renders a user id and its resolved user name for display, degrading each
/// to the "unknown" sentinel.
pub fn get_user_info(uid: &Option<u32>, dir: &UserDirectory) -> (r: (String, String))
    ensures
        r.0@ == uid_display(*uid),
        r.1@ == user_display(*uid, dir@),
{
    match uid {
        Some(u) => {
            let uid_str = u64_to_string(*u as u64);
            let user = match dir.lookup(*u) {
                Some(n) => n,
                None => String::from_str("unknown"),
            };
            (uid_str, user)
        },
        None => (String::from_str("unknown"), String::from_str("unknown")),
    }
}

} // verus!
