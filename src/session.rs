//! The coordinator: how the editor, the command line and the agent take
//! turns so that only one process writes the store, as decisions on plain
//! values. The caller performs each action and reports what it observed.
use vstd::prelude::*;

use crate::agent::POLL_ATTEMPTS;
use crate::crypto::KEY_LEN;
use crate::error::VaultError;
use crate::hexkey::{hex_text, is_hex, key_from_hex, key_to_hex, spells};
use crate::text::{contains_text, occurs_in, text_eq};

verus! {

/// Where the agent stands, as the coordinator sees it.
#[derive(Debug, Clone, Copy, PartialEq, Eq, Structural)]
pub enum AgentPhase {
    NotRunning,
    Starting,
    Running,
    Stopping,
}

/// What the coordinator observed or did.
#[derive(Debug, Clone, Copy, PartialEq, Eq, Structural)]
pub enum PhaseEvent {
    /// A daemon was launched.
    StartDaemon,
    /// The socket appeared.
    SocketReady,
    /// The socket did not appear in time.
    StartTimedOut,
    /// A shutdown was requested or the session lifetime ran out.
    Shutdown,
    /// The socket is gone.
    SocketRemoved,
    /// The socket outlived the wait and was removed by force.
    StopTimedOut,
}

/// The coordinator's transitions; any other event leaves the phase as is.
pub open spec fn phase_after(p: AgentPhase, e: PhaseEvent) -> AgentPhase {
    match (p, e) {
        (AgentPhase::NotRunning, PhaseEvent::StartDaemon) => AgentPhase::Starting,
        (AgentPhase::Starting, PhaseEvent::SocketReady) => AgentPhase::Running,
        (AgentPhase::Starting, PhaseEvent::StartTimedOut) => AgentPhase::NotRunning,
        (AgentPhase::Running, PhaseEvent::Shutdown) => AgentPhase::Stopping,
        (AgentPhase::Stopping, PhaseEvent::SocketRemoved) => AgentPhase::NotRunning,
        (AgentPhase::Stopping, PhaseEvent::StopTimedOut) => AgentPhase::NotRunning,
        _ => p,
    }
}

/// The next phase of the agent after `e`.
pub fn next_phase(p: AgentPhase, e: PhaseEvent) -> (r: AgentPhase)
    ensures
        r == phase_after(p, e),
{
    match (p, e) {
        (AgentPhase::NotRunning, PhaseEvent::StartDaemon) => AgentPhase::Starting,
        (AgentPhase::Starting, PhaseEvent::SocketReady) => AgentPhase::Running,
        (AgentPhase::Starting, PhaseEvent::StartTimedOut) => AgentPhase::NotRunning,
        (AgentPhase::Running, PhaseEvent::Shutdown) => AgentPhase::Stopping,
        (AgentPhase::Stopping, PhaseEvent::SocketRemoved) => AgentPhase::NotRunning,
        (AgentPhase::Stopping, PhaseEvent::StopTimedOut) => AgentPhase::NotRunning,
        _ => p,
    }
}

/// What a process waiting for the agent's socket does next.
#[derive(Debug, Clone, Copy, PartialEq, Eq, Structural)]
pub enum PollStep {
    /// The wait is over and succeeded.
    Done,
    /// Sleep briefly and look again.
    Wait,
    /// Give up.
    GiveUp,
}

/// Waiting for a new agent: after the check numbered `attempt` (from zero)
/// found the socket `ready` or not.
pub fn start_poll(attempt: u32, ready: bool) -> (r: PollStep)
    ensures
        ready ==> r == PollStep::Done,
        !ready && attempt + 1 < POLL_ATTEMPTS ==> r == PollStep::Wait,
        !ready && attempt + 1 >= POLL_ATTEMPTS ==> r == PollStep::GiveUp,
{
    if ready {
        PollStep::Done
    } else if attempt >= POLL_ATTEMPTS - 1 {
        PollStep::GiveUp
    } else {
        PollStep::Wait
    }
}

/// Waiting for a stopped agent to go away: done once its socket is gone and
/// it no longer answers; when the wait runs out the caller removes the
/// socket itself.
pub fn stop_poll(attempt: u32, socket_present: bool, answering: bool) -> (r: PollStep)
    ensures
        !socket_present && !answering ==> r == PollStep::Done,
        (socket_present || answering) && attempt + 1 < POLL_ATTEMPTS ==> r == PollStep::Wait,
        (socket_present || answering) && attempt + 1 >= POLL_ATTEMPTS ==> r == PollStep::GiveUp,
{
    start_poll(attempt, !socket_present && !answering)
}

/// The marker of a successful answer on the wire.
pub open spec fn ok_marker() -> Seq<char> {
    "\"status\":\"ok\""@
}

/// Whether an answer line from the agent reports success.
pub fn is_ok_answer(line: &str) -> (r: bool)
    ensures
        r == occurs_in(line@, ok_marker()),
{
    contains_text(line, "\"status\":\"ok\"")
}

/// Leaving the editor starts a fresh agent only when the locker was opened,
/// the store holds something, and no agent answers already.
pub fn should_start_agent_on_exit(unlocked: bool, store_len: usize, agent_running: bool) -> (r:
    bool)
    ensures
        r == (unlocked && store_len > 0 && !agent_running),
{
    unlocked && store_len > 0 && !agent_running
}

/// The arguments that launch the agent process for `key` and the store at
/// `store_path`.
pub fn launch_args(key: &[u8], store_path: &str) -> (r: Vec<String>)
    ensures
        r@.len() == 5,
        r@[0]@ == "agent"@,
        r@[1]@ == "--key"@,
        r@[2]@ == hex_text(key@),
        r@[3]@ == "--store"@,
        r@[4]@ == store_path@,
{
    let mut v: Vec<String> = Vec::new();
    v.push(String::from_str("agent"));
    v.push(String::from_str("--key"));
    v.push(key_to_hex(key));
    v.push(String::from_str("--store"));
    v.push(store_path.to_owned());
    v
}

/// The values given to `--key` and `--store`, scanning left to right: a
/// flag followed by a value takes it and skips it; anything else is
/// skipped. A later flag overrides an earlier one.
pub open spec fn agent_flags(args: Seq<Seq<char>>, i: int, key: Seq<char>, store: Seq<char>) -> (
    Seq<char>,
    Seq<char>,
)
    decreases args.len() - i,
{
    if i < 0 || i >= args.len() {
        (key, store)
    } else if args[i] == "--key"@ && i + 1 < args.len() {
        agent_flags(args, i + 2, args[i + 1], store)
    } else if args[i] == "--store"@ && i + 1 < args.len() {
        agent_flags(args, i + 2, key, args[i + 1])
    } else {
        agent_flags(args, i + 1, key, store)
    }
}

/// The views of a list of strings.
pub open spec fn texts(v: Seq<String>) -> Seq<Seq<char>> {
    v.map_values(|s: String| s@)
}

/// Reads the agent's command line: the hexadecimal key and the store path.
/// Either one missing or empty is a usage error.
pub fn parse_agent_args(args: &Vec<String>) -> (r: Result<(String, String), VaultError>)
    ensures
        ({
            let (k, s) = agent_flags(texts(args@), 0, Seq::empty(), Seq::empty());
            match r {
                Ok((key, store)) => key@ == k && store@ == s && k.len() > 0 && s.len() > 0,
                Err(e) => e == VaultError::BadArgument && (k.len() == 0 || s.len() == 0),
            }
        }),
{
    let mut key = String::new();
    let mut store = String::new();
    let mut i: usize = 0;
    let ghost all = texts(args@);
    while i < args.len()
        invariant
            all == texts(args@),
            i <= args@.len() + 1,
            agent_flags(all, i as int, key@, store@) == agent_flags(all, 0, Seq::empty(), Seq::empty()),
        decreases args@.len() + 1 - i,
    {
        let a = args[i].as_str();
        if text_eq(a, "--key") && i + 1 < args.len() {
            key = args[i + 1].clone();
            i = i + 2;
        } else if text_eq(a, "--store") && i + 1 < args.len() {
            store = args[i + 1].clone();
            i = i + 2;
        } else {
            i = i + 1;
        }
    }
    if key.as_str().is_empty() || store.as_str().is_empty() {
        Err(VaultError::BadArgument)
    } else {
        Ok((key, store))
    }
}

/// The master key handed to the agent as hexadecimal text: exactly the
/// digits of a full key, else a usage error.
pub fn agent_key(key_hex: &str) -> (r: Result<Vec<u8>, VaultError>)
    ensures
        r is Ok <==> is_hex(key_hex@) && key_hex@.len() == 2 * KEY_LEN,
        r matches Ok(k) ==> k@.len() == KEY_LEN && spells(key_hex@, k@),
        r matches Err(e) ==> e == VaultError::BadArgument,
{
    match key_from_hex(key_hex, KEY_LEN) {
        Some(k) => Ok(k),
        None => Err(VaultError::BadArgument),
    }
}

} // verus!
