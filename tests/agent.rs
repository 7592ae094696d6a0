use lazy_locker::agent::{AgentRequest, AgentResponse, AgentState, ResponseData, DEFAULT_TTL_HOURS};
use lazy_locker::hexkey::{key_from_hex, key_to_hex};
use lazy_locker::session::{
    agent_key, is_ok_answer, launch_args, next_phase, parse_agent_args, should_start_agent_on_exit,
    start_poll, stop_poll, AgentPhase, PhaseEvent, PollStep,
};
use lazy_locker::error::VaultError;
use lazy_locker::store::SecretsStore;

fn test_key() -> Vec<u8> {
    vec![0x42u8; 32]
}

fn state_with(pairs: &[(&str, &str)]) -> AgentState {
    let key = test_key();
    let mut store = SecretsStore::new();
    for (n, v) in pairs {
        store.add_secret(n.to_string(), v.to_string(), None, &key).unwrap();
    }
    AgentState::new(key, store)
}

fn strings(v: &[&str]) -> Vec<String> {
    v.iter().map(|s| s.to_string()).collect()
}

#[test]
fn ping_reports_uptime_and_remaining_ttl() {
    let mut st = state_with(&[]);
    match st.process_request(&AgentRequest::Ping, 0) {
        AgentResponse::Success { data: ResponseData::Status { uptime_secs, ttl_remaining_secs } } => {
            assert_eq!(uptime_secs, 0);
            assert_eq!(ttl_remaining_secs, 28800);
        }
        other => panic!("unexpected {:?}", other),
    }
    match st.process_request(&AgentRequest::Ping, 4_999) {
        AgentResponse::Success { data: ResponseData::Status { uptime_secs, ttl_remaining_secs } } => {
            assert_eq!(uptime_secs, 4);
            assert_eq!(ttl_remaining_secs, 28796);
        }
        other => panic!("unexpected {:?}", other),
    }
    assert!(!st.should_stop);
}

#[test]
fn list_matches_store_listing() {
    let mut st = state_with(&[("ZED", "1"), ("ALPHA", "2")]);
    let expected: Vec<String> = st.store.list_secrets().iter().map(|s| s.name.clone()).collect();
    match st.process_request(&AgentRequest::List, 10) {
        AgentResponse::Success { data: ResponseData::Names(names) } => {
            assert_eq!(names, expected);
            assert_eq!(names, strings(&["ALPHA", "ZED"]));
        }
        other => panic!("unexpected {:?}", other),
    }
}

#[test]
fn get_secret_matches_store_decrypt() {
    let mut st = state_with(&[("A", "one")]);
    let key = test_key();
    let direct = st.store.decrypt_secret("A", &key).unwrap();
    match st.process_request(&AgentRequest::GetSecret { name: "A".to_string() }, 10) {
        AgentResponse::Success { data: ResponseData::Value(v) } => assert_eq!(v, direct),
        other => panic!("unexpected {:?}", other),
    }
    match st.process_request(&AgentRequest::GetSecret { name: "B".to_string() }, 10) {
        AgentResponse::Error { message } => assert_eq!(message, "Secret 'B' not found"),
        other => panic!("unexpected {:?}", other),
    }
}

#[test]
fn get_secrets_returns_full_plaintext_map() {
    let mut st = state_with(&[("B", "two"), ("A", "1")]);
    match st.process_request(&AgentRequest::GetSecrets, 10) {
        AgentResponse::Success { data: ResponseData::Secrets(v) } => assert_eq!(
            v,
            vec![("A".to_string(), "1".to_string()), ("B".to_string(), "two".to_string())]
        ),
        other => panic!("unexpected {:?}", other),
    }
}

#[test]
fn wrong_key_reports_decryption_error() {
    let mut st = state_with(&[("A", "1")]);
    st.key = vec![0u8; 32];
    match st.process_request(&AgentRequest::GetSecrets, 10) {
        AgentResponse::Error { message } => assert_eq!(message, "Decryption error: Decryption failed"),
        other => panic!("unexpected {:?}", other),
    }
}

#[test]
fn shutdown_sets_stop_flag() {
    let mut st = state_with(&[]);
    match st.process_request(&AgentRequest::Shutdown, 10) {
        AgentResponse::Success { data: ResponseData::Message(m) } => assert_eq!(m, "Agent stopped"),
        other => panic!("unexpected {:?}", other),
    }
    assert!(st.should_stop);
}

#[test]
fn request_after_ttl_is_refused_and_stops() {
    let mut st = state_with(&[("A", "1")]);
    assert_eq!(st.ttl_hours, DEFAULT_TTL_HOURS);
    let limit = 8 * 3600 * 1000;
    assert!(!st.watchdog_tick(limit));
    match st.process_request(&AgentRequest::List, limit + 1) {
        AgentResponse::Error { message } => assert_eq!(message, "Session expired"),
        other => panic!("unexpected {:?}", other),
    }
    assert!(st.should_stop);
    assert!(st.watchdog_tick(0));
}

#[test]
fn key_hand_off_through_hex() {
    let key: Vec<u8> = (0u8..32).collect();
    let hex = key_to_hex(&key);
    assert_eq!(&hex[..8], "00010203");
    assert_eq!(hex.len(), 64);
    assert_eq!(agent_key(&hex), Ok(key.clone()));
    assert_eq!(agent_key(&hex.to_uppercase()), Ok(key));
    assert_eq!(agent_key("abc"), Err(VaultError::BadArgument));
    assert_eq!(agent_key(&"zz".repeat(32)), Err(VaultError::BadArgument));
    assert_eq!(key_from_hex("0aff", 2), Some(vec![0x0a, 0xff]));
    assert_eq!(key_from_hex("0aff", 3), None);
}

#[test]
fn launch_and_parse_agent_arguments() {
    let key = vec![0xabu8; 32];
    let args = launch_args(&key, "/tmp/store.json");
    assert_eq!(args[0], "agent");
    assert_eq!(args[1], "--key");
    assert_eq!(args[2], "ab".repeat(32));
    assert_eq!(args[4], "/tmp/store.json");
    let (k, s) = parse_agent_args(&args[1..].to_vec()).unwrap();
    assert_eq!(k, "ab".repeat(32));
    assert_eq!(s, "/tmp/store.json");
    assert_eq!(parse_agent_args(&strings(&["--key", "aa"])), Err(VaultError::BadArgument));
    assert_eq!(parse_agent_args(&strings(&["--key"])), Err(VaultError::BadArgument));
}

#[test]
fn polling_gives_up_after_fifty_checks() {
    assert_eq!(start_poll(0, true), PollStep::Done);
    assert_eq!(start_poll(0, false), PollStep::Wait);
    assert_eq!(start_poll(48, false), PollStep::Wait);
    assert_eq!(start_poll(49, false), PollStep::GiveUp);
    assert_eq!(stop_poll(3, false, false), PollStep::Done);
    assert_eq!(stop_poll(3, true, false), PollStep::Wait);
    assert_eq!(stop_poll(49, false, true), PollStep::GiveUp);
}

#[test]
fn coordinator_phases() {
    let p = next_phase(AgentPhase::NotRunning, PhaseEvent::StartDaemon);
    assert_eq!(p, AgentPhase::Starting);
    assert_eq!(next_phase(p, PhaseEvent::StartTimedOut), AgentPhase::NotRunning);
    let p = next_phase(p, PhaseEvent::SocketReady);
    assert_eq!(p, AgentPhase::Running);
    let p = next_phase(p, PhaseEvent::Shutdown);
    assert_eq!(p, AgentPhase::Stopping);
    assert_eq!(next_phase(p, PhaseEvent::StopTimedOut), AgentPhase::NotRunning);
    assert_eq!(next_phase(p, PhaseEvent::SocketRemoved), AgentPhase::NotRunning);
    assert_eq!(next_phase(AgentPhase::Running, PhaseEvent::StartDaemon), AgentPhase::Running);
}

#[test]
fn ok_answers_are_recognised() {
    assert!(is_ok_answer("{\"status\":\"ok\",\"data\":{}}"));
    assert!(!is_ok_answer("{\"status\":\"error\",\"message\":\"x\"}"));
    assert!(!is_ok_answer(""));
}

#[test]
fn agent_starts_on_exit_only_with_secrets() {
    assert!(should_start_agent_on_exit(true, 2, false));
    assert!(!should_start_agent_on_exit(true, 0, false));
    assert!(!should_start_agent_on_exit(false, 2, false));
    assert!(!should_start_agent_on_exit(true, 2, true));
}
