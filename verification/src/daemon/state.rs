//! The state that a running daemon leaves for its clients.

use vstd::prelude::*;

use crate::path::{join_of, join_path};
use crate::protocol::message::PROTOCOL_VERSION;
use crate::text::{decimal, decimal_text, same_text};

verus! {

/// Where a daemon listens, and how it is told from others.
#[derive(Debug, PartialEq, Eq)]
pub struct DaemonState {
    pub port: u16,
    pub pid: u32,
    pub protocol_version: u32,
    pub token: String,
}

/// The path of a state file of the daemon.
fn state_file(home: Option<String>, name: &str) -> (path: Result<String, String>)
    ensures
        match (path, home) {
            (Ok(path), Some(home)) => path@ == join_of(home@, ".local/state/ate/"@ + name@),
            (Err(error), None) => error@ == "HOME is unavailable"@,
            _ => false,
        },
{
    match home {
        Some(home) => {
            let file = ".local/state/ate/".to_owned().concat(name);
            Ok(join_path(home.as_str(), file.as_str()))
        },
        None => Err("HOME is unavailable".to_owned()),
    }
}

/// Where the state of the daemon lies.
pub fn state_path(home: Option<String>) -> (path: Result<String, String>)
    ensures
        match (path, home) {
            (Ok(path), Some(home)) => path@ == join_of(
                home@,
                ".local/state/ate/"@ + "daemon.json"@,
            ),
            (Err(error), None) => error@ == "HOME is unavailable"@,
            _ => false,
        },
{
    state_file(home, "daemon.json")
}

/// Where a new state is written before it takes the place of the old one.
pub fn temporary_state_path(home: Option<String>, pid: u32) -> (path: Result<String, String>)
    ensures
        match (path, home) {
            (Ok(path), Some(home)) => path@ == join_of(
                home@,
                ".local/state/ate/"@ + ("daemon.json."@ + decimal(pid as nat)),
            ),
            (Err(error), None) => error@ == "HOME is unavailable"@,
            _ => false,
        },
{
    let pid = decimal_text(pid as u128);
    let name = "daemon.json.".to_owned().concat(pid.as_str());
    state_file(home, name.as_str())
}

/// The lock that serializes starting and stopping.
pub fn state_lock_path(home: Option<String>) -> (path: Result<String, String>)
    ensures
        match (path, home) {
            (Ok(path), Some(home)) => path@ == join_of(
                home@,
                ".local/state/ate/"@ + "daemon.lock"@,
            ),
            (Err(error), None) => error@ == "HOME is unavailable"@,
            _ => false,
        },
{
    state_file(home, "daemon.lock")
}

/// The lock that a running daemon holds.
pub fn service_lock_path(home: Option<String>) -> (path: Result<String, String>)
    ensures
        match (path, home) {
            (Ok(path), Some(home)) => path@ == join_of(
                home@,
                ".local/state/ate/"@ + "daemon.service.lock"@,
            ),
            (Err(error), None) => error@ == "HOME is unavailable"@,
            _ => false,
        },
{
    state_file(home, "daemon.service.lock")
}

/// What is done next to have a daemon running.
#[derive(Debug, PartialEq, Eq)]
pub enum StartStep {
    /// This daemon runs.
    Ready(DaemonState),
    /// Start one.
    Spawn,
    /// Wait so many milliseconds and look again.
    Wait(u64),
    /// Give up; the text says why.
    Failed(String),
}

/// How often a daemon that was started is looked for.
pub const START_TRIES: u32 = 100;

/// How long is waited between two looks, in milliseconds.
pub const START_WAIT_MS: u64 = 25;

/// What is done next to have a daemon running, given whether one was started, how
/// often it was waited for, and the daemon that was found to run.
pub fn ensure_step(spawned: bool, tries: u32, healthy: Option<DaemonState>) -> (step: StartStep)
    ensures
        match (healthy, step) {
            (Some(state), StartStep::Ready(ready)) => ready == state,
            (None, StartStep::Spawn) => !spawned,
            (None, StartStep::Wait(ms)) => spawned && tries < 100 && ms == 25,
            (None, StartStep::Failed(message)) => spawned && tries >= 100 && message@
                == "daemon did not become ready"@,
            _ => false,
        },
{
    match healthy {
        Some(state) => StartStep::Ready(state),
        None => if !spawned {
            StartStep::Spawn
        } else if tries < START_TRIES {
            StartStep::Wait(START_WAIT_MS)
        } else {
            StartStep::Failed("daemon did not become ready".to_owned())
        },
    }
}

/// Whether a process is the daemon: it runs the same program as this one, where
/// both are known.
pub fn process_is_daemon(process: Option<&str>, current: Option<&str>) -> (yes: bool)
    ensures
        yes == match (process, current) {
            (Some(process), Some(current)) => process@ == current@,
            _ => false,
        },
{
    match (process, current) {
        (Some(process), Some(current)) => same_text(process, current),
        _ => false,
    }
}

/// Whether the daemon of a state is worth connecting to: it speaks this version
/// of the protocol and its process is the daemon.
pub fn is_candidate(state: &DaemonState, process_is_daemon: bool) -> (yes: bool)
    ensures
        yes == (state.protocol_version == PROTOCOL_VERSION && process_is_daemon),
{
    state.protocol_version == PROTOCOL_VERSION && process_is_daemon
}

/// The state of a running daemon, where it is one and a connection was made.
pub fn healthy(state: Option<DaemonState>, process_is_daemon: bool, connected: bool) -> (healthy:
    Option<DaemonState>)
    ensures
        healthy == match state {
            Some(state) if state.protocol_version == PROTOCOL_VERSION && process_is_daemon
                && connected => Some(state),
            _ => None,
        },
{
    match state {
        Some(state) => if is_candidate(&state, process_is_daemon) && connected {
            Some(state)
        } else {
            None
        },
        None => None,
    }
}

/// What stopping the daemon comes to.
#[derive(Debug, PartialEq, Eq)]
pub struct StopPlan {
    /// The process to end.
    pub terminate: Option<u32>,
    /// Whether the state is deleted.
    pub forget: bool,
    /// Whether a daemon was stopped.
    pub stopped: bool,
}

/// What stopping the daemon comes to: a state is deleted in any case, and the
/// process is ended only where it is the daemon.
pub fn stop(state: Option<&DaemonState>, process_is_daemon: bool) -> (plan: StopPlan)
    ensures
        plan.forget == state is Some,
        plan.stopped == (state is Some && process_is_daemon),
        plan.terminate == match state {
            Some(state) if process_is_daemon => Some(state.pid),
            _ => None,
        },
{
    match state {
        Some(state) => if process_is_daemon {
            StopPlan { terminate: Some(state.pid), forget: true, stopped: true }
        } else {
            StopPlan { terminate: None, forget: true, stopped: false }
        },
        None => StopPlan { terminate: None, forget: false, stopped: false },
    }
}

/// A digit of a hexadecimal number.
pub open spec fn hex_digit(d: nat) -> char {
    if d < 10 {
        ('0' as u32 + d) as char
    } else {
        ('a' as u32 + (d - 10)) as char
    }
}

/// Two hexadecimal digits for each byte.
pub open spec fn hex_of(bytes: Seq<u8>) -> Seq<char>
    decreases bytes.len(),
{
    if bytes.len() == 0 {
        Seq::empty()
    } else {
        hex_of(bytes.drop_last()).push(hex_digit((bytes.last() / 16) as nat)).push(
            hex_digit((bytes.last() % 16) as nat),
        )
    }
}

fn hex_char(d: u8) -> (c: char)
    requires
        d < 16,
    ensures
        c == hex_digit(d as nat),
{
    match d {
        0 => '0',
        1 => '1',
        2 => '2',
        3 => '3',
        4 => '4',
        5 => '5',
        6 => '6',
        7 => '7',
        8 => '8',
        9 => '9',
        10 => 'a',
        11 => 'b',
        12 => 'c',
        13 => 'd',
        14 => 'e',
        _ => 'f',
    }
}

/// The token made of random bytes: two hexadecimal digits for each.
pub fn token_of(bytes: &[u8]) -> (token: String)
    ensures
        token@ == hex_of(bytes@),
{
    let n: usize = bytes.len();
    let mut token = String::new();
    let mut i: usize = 0;
    while i < n
        invariant
            i <= n == bytes@.len(),
            token@ == hex_of(bytes@.take(i as int)),
        decreases n - i,
    {
        let byte: u8 = bytes[i];
        proof {
            assert(bytes@.take(i + 1).drop_last() =~= bytes@.take(i as int));
        }
        token.push(hex_char(byte / 16));
        token.push(hex_char(byte % 16));
        i += 1;
    }
    assert(bytes@.take(n as int) =~= bytes@);
    token
}

/// A token has two digits for each byte.
pub proof fn law_token_length(bytes: Seq<u8>)
    ensures
        hex_of(bytes).len() == 2 * bytes.len(),
    decreases bytes.len(),
{
    if bytes.len() > 0 {
        law_token_length(bytes.drop_last());
    }
}

/// Different bytes of the same number give different tokens.
pub proof fn law_tokens_tell_bytes_apart(a: Seq<u8>, b: Seq<u8>)
    requires
        a.len() == b.len(),
        hex_of(a) == hex_of(b),
    ensures
        a == b,
    decreases a.len(),
{
    if a.len() > 0 {
        let (x, y) = (hex_of(a), hex_of(b));
        law_token_length(a);
        law_token_length(b);
        assert(x[x.len() - 1] == hex_digit((a.last() % 16) as nat));
        assert(y[y.len() - 1] == hex_digit((b.last() % 16) as nat));
        assert(x[x.len() - 2] == hex_digit((a.last() / 16) as nat));
        assert(y[y.len() - 2] == hex_digit((b.last() / 16) as nat));
        assert(x.drop_last().drop_last() =~= hex_of(a.drop_last()));
        assert(y.drop_last().drop_last() =~= hex_of(b.drop_last()));
        law_tokens_tell_bytes_apart(a.drop_last(), b.drop_last());
        assert(a.last() == b.last());
        assert(a =~= a.drop_last().push(a.last()));
        assert(b =~= b.drop_last().push(b.last()));
    }
}

/// The value of a hexadecimal digit.
pub open spec fn hex_value(c: char) -> int {
    if '0' <= c <= '9' {
        c as int - '0' as int
    } else {
        c as int - 'a' as int + 10
    }
}

/// A token is made of digits and the letters `a` to `f`, and is read as the
/// bytes that it was made of: two digits, the higher first, for each byte in
/// order.
pub proof fn law_tokens_read_back(bytes: Seq<u8>, i: int)
    requires
        0 <= i < bytes.len(),
    ensures
        hex_of(bytes).len() == 2 * bytes.len(),
        ({
            let (high, low) = (hex_of(bytes)[2 * i], hex_of(bytes)[2 * i + 1]);
            &&& '0' <= high <= '9' || 'a' <= high <= 'f'
            &&& '0' <= low <= '9' || 'a' <= low <= 'f'
            &&& hex_value(high) * 16 + hex_value(low) == bytes[i]
        }),
    decreases bytes.len(),
{
    law_token_length(bytes);
    let rest = bytes.drop_last();
    law_token_length(rest);
    if i < rest.len() {
        law_tokens_read_back(rest, i);
    }
}

} // verus!
