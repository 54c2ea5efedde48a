use switchboard::{Action, ConnectionState, Credentials, Data, Event, Phase};

const HEARTBEAT_TEXT: &str = "{\"hbc\":\"1\",\"requestId\":\"1\"}";
const DEFAULT_AUTH_TEXT: &str = "{\"dc_id\":\"dc_id\",\"ip\":\"127.0.0.1\",\"module_name\":\"client\",\"password\":\"password\",\"port\":\"9999\",\"requestId\":\"1\",\"username\":\"u\"}";
const ESCALATED_AUTH_TEXT: &str = "{\"dc_id\":\"dc_id\",\"ip\":\"127.0.0.1\",\"module_name\":\"client\",\"password\":\"password\",\"port\":\"9999\",\"requestId\":\"1\",\"username\":\"username\"}";

fn profile(username: &str) -> Credentials {
    Credentials {
        username: username.to_string(),
        password: "password".to_string(),
        module_name: "client".to_string(),
        dc_id: "dc_id".to_string(),
        ip: "127.0.0.1".to_string(),
        port: "9999".to_string(),
    }
}

fn state(phase: Phase, count: u32) -> ConnectionState {
    let mut s = ConnectionState::new(profile("u"), profile("username"), 5);
    s.phase = phase;
    s.count = count;
    s
}

fn sent(a: &Action) -> (u16, String) {
    match a {
        Action::Send(d) => (d.service, d.data.clone()),
        other => panic!("expected a frame to send, got {:?}", other),
    }
}

fn received(service: u16, text: &str) -> Event {
    Event::Received(Data { service, data: text.to_string() })
}

#[test]
fn new_state_is_disconnected() {
    let s = ConnectionState::new(profile("u"), profile("username"), 5);
    assert!(s.running);
    assert_eq!(s.phase, Phase::Disconnected);
    assert_eq!(s.count, 0);
}

#[test]
fn heartbeat_reply_text() {
    let d = ConnectionState::heartbeat_reply();
    assert_eq!(d.service, 1);
    assert_eq!(d.data, HEARTBEAT_TEXT);
}

#[test]
fn heartbeat_is_echoed_without_phase_change() {
    let mut s = state(Phase::Active, 3);
    let a = s.handle(received(1, "anything at all"));
    assert_eq!(sent(&a), (1, HEARTBEAT_TEXT.to_string()));
    assert_eq!(s.phase, Phase::Active);
    assert_eq!(s.count, 3);
}

#[test]
fn auth_uses_default_profile_below_threshold() {
    let d = state(Phase::Authenticating, 9).auth();
    assert_eq!((d.service, d.data.as_str()), (2, DEFAULT_AUTH_TEXT));
}

#[test]
fn auth_uses_escalated_profile_at_threshold() {
    let d = state(Phase::Authenticating, 10).auth();
    assert_eq!((d.service, d.data.as_str()), (2, ESCALATED_AUTH_TEXT));
}

#[test]
fn auth_failure_at_nine_escalates() {
    let mut s = state(Phase::Authenticating, 9);
    let a = s.handle(received(2, "{\"r\":1}"));
    assert_eq!(s.count, 10);
    assert_eq!(s.phase, Phase::Authenticating);
    assert_eq!(sent(&a), (2, ESCALATED_AUTH_TEXT.to_string()));
}

#[test]
fn nine_failures_keep_default_profile() {
    let mut s = state(Phase::Authenticating, 0);
    for i in 1..=9u32 {
        let a = s.handle(received(2, "{\"r\":-3}"));
        assert_eq!(s.count, i);
        assert_eq!(sent(&a), (2, DEFAULT_AUTH_TEXT.to_string()));
    }
}

#[test]
fn auth_success_resets_counter() {
    let mut s = state(Phase::Authenticating, 7);
    let a = s.handle(received(2, "{\"r\":0}"));
    assert!(matches!(a, Action::Idle));
    assert_eq!(s.phase, Phase::Active);
    assert_eq!(s.count, 0);
}

#[test]
fn auth_result_without_code_is_a_failure() {
    let mut s = state(Phase::Authenticating, 0);
    let a = s.handle(received(2, "{\"ok\":true}"));
    assert_eq!(s.count, 1);
    assert_eq!(sent(&a).0, 2);
    let a = s.handle(received(2, "not json"));
    assert_eq!(s.count, 2);
    assert_eq!(sent(&a).0, 2);
    let a = s.handle(received(2, "{\"r\":\"0\"}"));
    assert_eq!(s.count, 3);
    assert_eq!(sent(&a).0, 2);
}

#[test]
fn on_auth_result_takes_the_code() {
    let mut s = state(Phase::Authenticating, 4);
    assert!(matches!(s.on_auth_result(Some(0)), Action::Idle));
    assert_eq!((s.phase, s.count), (Phase::Active, 0));
    let a = s.on_auth_result(None);
    assert_eq!((s.phase, s.count), (Phase::Authenticating, 1));
    assert_eq!(sent(&a), (2, DEFAULT_AUTH_TEXT.to_string()));
}

#[test]
fn failure_count_saturates() {
    let mut s = state(Phase::Authenticating, u32::MAX);
    let a = s.on_auth_result(Some(5));
    assert_eq!(s.count, u32::MAX);
    assert_eq!(sent(&a), (2, ESCALATED_AUTH_TEXT.to_string()));
}

#[test]
fn application_traffic_is_left_alone() {
    let mut s = state(Phase::Active, 2);
    assert!(matches!(s.handle(received(3, "{}")), Action::Idle));
    assert_eq!((s.phase, s.count), (Phase::Active, 2));
}

#[test]
fn frames_before_connecting_are_ignored() {
    let mut s = state(Phase::Disconnected, 2);
    assert!(matches!(s.on_data_received(&Data { service: 1, data: String::new() }), Action::Idle));
    assert_eq!((s.phase, s.count), (Phase::Disconnected, 2));
}

#[test]
fn full_attempt_sequence() {
    let mut s = ConnectionState::new(profile("u"), profile("username"), 5);
    assert!(matches!(s.handle(Event::Resume), Action::Connect));
    assert_eq!(s.phase, Phase::Connecting);
    let a = s.handle(Event::Connected);
    assert_eq!(s.phase, Phase::Authenticating);
    assert_eq!(sent(&a), (2, DEFAULT_AUTH_TEXT.to_string()));
    assert!(matches!(s.handle(received(2, "{\"r\":0}")), Action::Idle));
    assert_eq!(s.phase, Phase::Active);
}

#[test]
fn connect_failure_pauses() {
    let mut s = state(Phase::Connecting, 0);
    assert!(matches!(s.handle(Event::ConnectFailed), Action::Sleep(5)));
    assert_eq!(s.phase, Phase::Disconnected);
}

#[test]
fn stream_closure_reconnects_once() {
    let mut s = state(Phase::Active, 4);
    assert!(matches!(s.handle(Event::Closed), Action::Sleep(5)));
    assert_eq!(s.phase, Phase::Disconnected);
    assert_eq!(s.count, 4);
    assert!(matches!(s.handle(Event::Closed), Action::Idle));
    assert!(matches!(s.handle(Event::Resume), Action::Connect));
    assert_eq!(s.phase, Phase::Connecting);
    assert!(matches!(s.handle(Event::Resume), Action::Idle));
    assert_eq!(s.phase, Phase::Connecting);
}

#[test]
fn configured_delay_is_used() {
    let mut s = ConnectionState::new(profile("u"), profile("username"), 30);
    s.phase = Phase::Authenticating;
    assert!(matches!(s.handle(Event::Closed), Action::Sleep(30)));
}

#[test]
fn stopped_loop_does_not_reconnect() {
    let mut s = state(Phase::Active, 0);
    s.stop();
    assert!(!s.running);
    assert!(matches!(s.handle(Event::Closed), Action::Sleep(5)));
    assert!(matches!(s.handle(Event::Resume), Action::Stop));
    assert_eq!(s.phase, Phase::Disconnected);
}

#[test]
fn auth_result_while_active_is_application_traffic() {
    let mut s = state(Phase::Active, 0);
    assert!(matches!(s.handle(received(2, "{\"r\":1}")), Action::Idle));
    assert_eq!((s.phase, s.count), (Phase::Active, 0));
}

#[test]
fn each_closure_gives_one_pause_and_one_attempt() {
    let mut s = ConnectionState::new(profile("u"), profile("username"), 5);
    let mut attempts = 0;
    let mut pauses = 0;
    let mut action = s.handle(Event::Resume);
    for _ in 0..3 {
        assert!(matches!(action, Action::Connect));
        attempts += 1;
        assert!(matches!(s.handle(Event::Connected), Action::Send(_)));
        assert!(matches!(s.handle(received(2, "{\"r\":0}")), Action::Idle));
        assert!(matches!(s.handle(Event::Closed), Action::Sleep(5)));
        pauses += 1;
        assert!(matches!(s.handle(Event::Closed), Action::Idle));
        action = s.handle(Event::Resume);
    }
    assert!(matches!(action, Action::Connect));
    attempts += 1;
    assert_eq!((attempts, pauses), (4, 3));
}
