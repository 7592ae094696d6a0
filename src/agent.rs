//! The agent: the requests it answers, its in-memory session state, and the
//! decisions of its accept loop and of the processes that start and stop it.
//! Sockets, threads and JSON framing live with the caller; every decision on
//! what to answer is made here.
use vstd::prelude::*;

use crate::crypto::KEY_LEN;
use crate::error::{error_text, VaultError};
use crate::store::{first_failure, lookup_plain, plain_text, SecretsStore};

verus! {

/// Default session lifetime in hours.
pub const DEFAULT_TTL_HOURS: u64 = 8;

/// Longest session lifetime in hours whose length in milliseconds fits.
pub const MAX_TTL_HOURS: u64 = 5124095576030;

/// Milliseconds in an hour.
pub const MS_PER_HOUR: u64 = 3600000;

/// How many times a starting or stopping caller polls the socket.
pub const POLL_ATTEMPTS: u32 = 50;

/// A request sent to the agent.
#[derive(Debug, Clone, PartialEq, Eq)]
pub enum AgentRequest {
    /// Is the agent alive?
    Ping,
    /// Every secret, decrypted.
    GetSecrets,
    /// One secret, decrypted.
    GetSecret { name: String },
    /// The names of the secrets.
    List,
    /// Stop the agent.
    Shutdown,
}

/// The payload of a successful answer.
#[derive(Debug, Clone)]
pub enum ResponseData {
    /// Seconds since start and seconds left in the session.
    Status { uptime_secs: u64, ttl_remaining_secs: u64 },
    /// (name, value) pairs, sorted by name.
    Secrets(Vec<(String, String)>),
    /// The value of one secret.
    Value(String),
    /// The names of the secrets, sorted.
    Names(Vec<String>),
    /// A message for the client.
    Message(String),
}

/// The agent's answer to one request.
#[derive(Debug, Clone)]
pub enum AgentResponse {
    Success { data: ResponseData },
    Error { message: String },
}

/// What the agent holds in memory for its session.
pub struct AgentState {
    /// The master key.
    pub key: Vec<u8>,
    /// The loaded store; the agent never writes it back.
    pub store: SecretsStore,
    /// Session lifetime in hours.
    pub ttl_hours: u64,
    /// Set once the agent is to wind down.
    pub should_stop: bool,
}

/// The session has outlived its lifetime after `elapsed_ms` milliseconds.
pub open spec fn session_over(elapsed_ms: int, ttl_hours: int) -> bool {
    elapsed_ms > ttl_hours * MS_PER_HOUR
}

/// The message that names a decryption failure.
pub open spec fn decryption_message(e: VaultError) -> Seq<char> {
    "Decryption error: "@ + error_text(e)
}

impl AgentState {
    /// The key is a master key, the store is well formed and the lifetime
    /// fits in milliseconds.
    pub open spec fn wf(&self) -> bool {
        &&& self.key@.len() == KEY_LEN
        &&& self.store.wf()
        &&& self.ttl_hours <= MAX_TTL_HOURS
    }

    /// A fresh session over `store` with the default lifetime.
    pub fn new(key: Vec<u8>, store: SecretsStore) -> (r: Self)
        requires
            key@.len() == KEY_LEN,
            store.wf(),
        ensures
            r.wf(),
            r.key == key,
            r.store == store,
            r.ttl_hours == DEFAULT_TTL_HOURS,
            !r.should_stop,
    {
        AgentState { key, store, ttl_hours: DEFAULT_TTL_HOURS, should_stop: false }
    }

    /// Whether the session is over after `elapsed_ms` milliseconds.
    pub fn is_expired(&self, elapsed_ms: u64) -> (r: bool)
        requires
            self.wf(),
        ensures
            r == session_over(elapsed_ms as int, self.ttl_hours as int),
    {
        elapsed_ms > self.ttl_hours * MS_PER_HOUR
    }

    /// The watchdog's periodic check: past the lifetime it sets the stop
    /// flag. Returns whether the watchdog has nothing more to watch.
    pub fn watchdog_tick(&mut self, elapsed_ms: u64) -> (r: bool)
        requires
            old(self).wf(),
        ensures
            final(self).wf(),
            final(self).key == old(self).key,
            final(self).store == old(self).store,
            final(self).ttl_hours == old(self).ttl_hours,
            final(self).should_stop == (old(self).should_stop || session_over(
                elapsed_ms as int,
                old(self).ttl_hours as int,
            )),
            r == final(self).should_stop,
    {
        if self.is_expired(elapsed_ms) {
            self.should_stop = true;
        }
        self.should_stop
    }

    /// Answers one request, `elapsed_ms` milliseconds into the session. A
    /// request past the lifetime is refused and stops the agent; otherwise
    /// only `shutdown` changes the state, by setting the stop flag.
    pub fn process_request(&mut self, request: &AgentRequest, elapsed_ms: u64) -> (r:
        AgentResponse)
        requires
            old(self).wf(),
        ensures
            final(self).wf(),
            final(self).key == old(self).key,
            final(self).store == old(self).store,
            final(self).ttl_hours == old(self).ttl_hours,
            final(self).should_stop == (old(self).should_stop || session_over(
                elapsed_ms as int,
                old(self).ttl_hours as int,
            ) || *request == AgentRequest::Shutdown),
            session_over(elapsed_ms as int, old(self).ttl_hours as int) ==> (r matches AgentResponse::Error {
                message,
            } && message@ == "Session expired"@),
            !session_over(elapsed_ms as int, old(self).ttl_hours as int) ==> match *request {
                AgentRequest::Ping => r matches AgentResponse::Success {
                    data: ResponseData::Status { uptime_secs, ttl_remaining_secs },
                } && uptime_secs == elapsed_ms / 1000 && ttl_remaining_secs == if old(
                    self,
                ).ttl_hours * 3600 > elapsed_ms / 1000 {
                    old(self).ttl_hours * 3600 - elapsed_ms / 1000
                } else {
                    0
                },
                AgentRequest::List => r matches AgentResponse::Success { data: ResponseData::Names(names) }
                    && names@.len() == old(self).store.secrets@.len() && forall|i: int|
                    0 <= i < names@.len() ==> (#[trigger] names@[i])@ == old(
                        self,
                    ).store.secrets@[i].name@,
                AgentRequest::GetSecrets => {
                    let s = old(self).store.secrets@;
                    let k = old(self).key@;
                    if forall|i: int| 0 <= i < s.len() ==> #[trigger] plain_text(k, s[i].encrypted_value@) is Ok {
                        r matches AgentResponse::Success { data: ResponseData::Secrets(v) } && v@.len()
                            == s.len() && forall|i: int|
                            0 <= i < v@.len() ==> (#[trigger] v@[i]).0@ == s[i].name@ && plain_text(
                                k,
                                s[i].encrypted_value@,
                            ) == Ok::<Seq<char>, VaultError>(v@[i].1@)
                    } else {
                        exists|e: VaultError|
                            #[trigger] first_failure(s, k, e) && (r matches AgentResponse::Error {
                                message,
                            } && message@ == decryption_message(e))
                    }
                },
                AgentRequest::GetSecret { name } => match lookup_plain(
                    old(self).store@,
                    old(self).key@,
                    name@,
                ) {
                    Ok(t) => r matches AgentResponse::Success { data: ResponseData::Value(v) } && v@
                        == t,
                    Err(VaultError::NotFound) => r matches AgentResponse::Error { message } && message@
                        == "Secret '"@ + name@ + "' not found"@,
                    Err(e) => r matches AgentResponse::Error { message } && message@
                        == decryption_message(e),
                },
                AgentRequest::Shutdown => r matches AgentResponse::Success {
                    data: ResponseData::Message(m),
                } && m@ == "Agent stopped"@,
            },
    {
        if self.is_expired(elapsed_ms) {
            self.should_stop = true;
            return AgentResponse::Error { message: String::from_str("Session expired") };
        }
        match request {
            AgentRequest::Ping => {
                let uptime: u64 = elapsed_ms / 1000;
                let total: u64 = self.ttl_hours * 3600;
                let remaining: u64 = if total > uptime {
                    total - uptime
                } else {
                    0
                };
                AgentResponse::Success {
                    data: ResponseData::Status { uptime_secs: uptime, ttl_remaining_secs: remaining },
                }
            },
            AgentRequest::GetSecrets => match self.store.decrypt_all(self.key.as_slice()) {
                Ok(v) => AgentResponse::Success { data: ResponseData::Secrets(v) },
                Err(e) => AgentResponse::Error {
                    message: String::from_str("Decryption error: ").concat(e.message()),
                },
            },
            AgentRequest::GetSecret { name } => match self.store.decrypt_secret(
                name.as_str(),
                self.key.as_slice(),
            ) {
                Ok(v) => AgentResponse::Success { data: ResponseData::Value(v) },
                Err(VaultError::NotFound) => AgentResponse::Error {
                    message: String::from_str("Secret '").concat(name.as_str()).concat(
                        "' not found",
                    ),
                },
                Err(e) => AgentResponse::Error {
                    message: String::from_str("Decryption error: ").concat(e.message()),
                },
            },
            AgentRequest::List => {
                let listed = self.store.list_secrets();
                let mut names: Vec<String> = Vec::new();
                let mut i: usize = 0;
                while i < listed.len()
                    invariant
                        i <= listed@.len(),
                        listed@.len() == self.store.secrets@.len(),
                        forall|j: int| 0 <= j < listed@.len() ==> *listed@[j] == self.store.secrets@[j],
                        names@.len() == i,
                        forall|j: int| 0 <= j < i ==> (#[trigger] names@[j])@ == self.store.secrets@[j].name@,
                    decreases listed@.len() - i,
                {
                    names.push(listed[i].name.clone());
                    i = i + 1;
                }
                AgentResponse::Success { data: ResponseData::Names(names) }
            },
            AgentRequest::Shutdown => {
                self.should_stop = true;
                AgentResponse::Success { data: ResponseData::Message(String::from_str("Agent stopped")) }
            },
        }
    }
}

} // verus!
