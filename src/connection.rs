//! The decisions of a long-lived upstream connection: connecting,
//! authenticating, answering heartbeats and reconnecting after a failure. The
//! caller performs each returned `Action` and reports what happened as the next
//! `Event`.
use vstd::prelude::*;

use crate::data::Data;
use crate::json::{fields_view, int_member, json_int_member, json_object_text, object_text};

verus! {

/// Service id of a heartbeat ping and of its reply.
pub const HEARTBEAT_SERVICE: u16 = 1;

/// Service id of an authentication request and of its result.
pub const AUTH_SERVICE: u16 = 2;

/// From this many failed authentications on, the escalated profile is used.
pub const ESCALATION_THRESHOLD: u32 = 10;

/// Pause between a failed or closed attempt and the next one, in seconds.
pub const DEFAULT_RECONNECT_DELAY_SECS: u64 = 5;

/// Lifecycle phase of the connection.
#[derive(Clone, Copy, Debug, PartialEq, Eq, Structural)]
pub enum Phase {
    Disconnected,
    Connecting,
    Authenticating,
    Active,
}

/// One set of authentication parameters.
#[derive(Clone, Debug)]
pub struct Credentials {
    pub username: String,
    pub password: String,
    pub module_name: String,
    pub dc_id: String,
    pub ip: String,
    pub port: String,
}

/// What happened since the last step.
#[derive(Debug)]
pub enum Event {
    /// The loop is ready for a new attempt: at start, or after a pause.
    Resume,
    /// The transport opened.
    Connected,
    /// The transport could not be opened.
    ConnectFailed,
    /// A frame arrived.
    Received(Data),
    /// The stream ended, failed, or held a malformed frame.
    Closed,
}

/// What the caller is to do next.
#[derive(Debug)]
pub enum Action {
    /// Open the transport.
    Connect,
    /// Write this frame to the transport.
    Send(Data),
    /// Pause this many seconds, then report `Resume`.
    Sleep(u64),
    /// Leave the loop.
    Stop,
    /// Nothing to do: read the next frame.
    Idle,
}

/// State of the connection. The failure count outlives single attempts.
#[derive(Debug)]
pub struct ConnectionState {
    pub running: bool,
    pub phase: Phase,
    pub count: u32,
    pub reconnect_delay_secs: u64,
    pub default_profile: Credentials,
    pub escalated_profile: Credentials,
}

/// The members of an authentication request made with `c`.
pub open spec fn auth_fields(c: Credentials) -> Seq<(Seq<char>, Seq<char>)> {
    seq![
        ("requestId"@, "1"@),
        ("username"@, c.username@),
        ("password"@, c.password@),
        ("module_name"@, c.module_name@),
        ("dc_id"@, c.dc_id@),
        ("ip"@, c.ip@),
        ("port"@, c.port@),
    ]
}

/// The members of a heartbeat reply.
pub open spec fn heartbeat_fields() -> Seq<(Seq<char>, Seq<char>)> {
    seq![("requestId"@, "1"@), ("hbc"@, "1"@)]
}

/// The failure count after one more failed authentication.
pub open spec fn next_failure_count(count: u32) -> u32 {
    if count < u32::MAX {
        (count + 1) as u32
    } else {
        count
    }
}

/// Whether `a` sends a frame with this service id and text.
pub open spec fn sends(a: Action, service: u16, text: Seq<char>) -> bool {
    a matches Action::Send(d) && d.service == service && d.data@ == text
}

impl ConnectionState {
    /// The profile that an authentication request made at `count` failures uses.
    pub open spec fn profile_for(self, count: u32) -> Credentials {
        if count >= ESCALATION_THRESHOLD {
            self.escalated_profile
        } else {
            self.default_profile
        }
    }

    /// Text of the authentication request made at `count` failures.
    pub open spec fn auth_text(self, count: u32) -> Seq<char> {
        json_object_text(auth_fields(self.profile_for(count)))
    }

    /// `t` keeps the configuration of `self`.
    pub open spec fn same_config(self, t: ConnectionState) -> bool {
        &&& t.running == self.running
        &&& t.reconnect_delay_secs == self.reconnect_delay_secs
        &&& t.default_profile == self.default_profile
        &&& t.escalated_profile == self.escalated_profile
    }

    /// `t` equals `self`, and nothing is to be done.
    pub open spec fn no_op(self, t: ConnectionState, a: Action) -> bool {
        &&& self.same_config(t)
        &&& t.phase == self.phase
        &&& t.count == self.count
        &&& a is Idle
    }

    /// Whether a transport is open.
    pub open spec fn is_open(self) -> bool {
        self.phase == Phase::Authenticating || self.phase == Phase::Active
    }

    /// Moving to `t` with action `a` on an authentication result `code`.
    pub open spec fn auth_result_step(self, code: Option<i64>, t: ConnectionState, a: Action) -> bool {
        &&& self.same_config(t)
        &&& if code == Some(0i64) {
            &&& t.phase == Phase::Active
            &&& t.count == 0
            &&& a is Idle
        } else {
            &&& t.phase == Phase::Authenticating
            &&& t.count == next_failure_count(self.count)
            &&& sends(a, AUTH_SERVICE, self.auth_text(t.count))
        }
    }

    /// Moving to `t` with action `a` on receipt of a frame. Authentication
    /// results count only while authenticating; once active, frames other than
    /// heartbeats are application traffic.
    pub open spec fn received_step(self, service: u16, text: Seq<char>, t: ConnectionState, a: Action) -> bool {
        if !self.is_open() {
            self.no_op(t, a)
        } else if service == HEARTBEAT_SERVICE {
            &&& self.same_config(t)
            &&& t.phase == self.phase
            &&& t.count == self.count
            &&& sends(a, HEARTBEAT_SERVICE, json_object_text(heartbeat_fields()))
        } else if service == AUTH_SERVICE && self.phase == Phase::Authenticating {
            self.auth_result_step(json_int_member(text, "r"@), t, a)
        } else {
            self.no_op(t, a)
        }
    }

    /// Moving to `t` with action `a` on `e`.
    pub open spec fn step(self, e: Event, t: ConnectionState, a: Action) -> bool {
        match e {
            Event::Resume => if self.phase != Phase::Disconnected {
                self.no_op(t, a)
            } else if self.running {
                &&& self.same_config(t)
                &&& t.phase == Phase::Connecting
                &&& t.count == self.count
                &&& a is Connect
            } else {
                &&& self.same_config(t)
                &&& t.phase == self.phase
                &&& t.count == self.count
                &&& a is Stop
            },
            Event::Connected => if self.phase != Phase::Connecting {
                self.no_op(t, a)
            } else {
                &&& self.same_config(t)
                &&& t.phase == Phase::Authenticating
                &&& t.count == self.count
                &&& sends(a, AUTH_SERVICE, self.auth_text(self.count))
            },
            Event::ConnectFailed => if self.phase != Phase::Connecting {
                self.no_op(t, a)
            } else {
                &&& self.same_config(t)
                &&& t.phase == Phase::Disconnected
                &&& t.count == self.count
                &&& a == Action::Sleep(self.reconnect_delay_secs)
            },
            Event::Received(d) => self.received_step(d.service, d.data@, t, a),
            Event::Closed => if !self.is_open() {
                self.no_op(t, a)
            } else {
                &&& self.same_config(t)
                &&& t.phase == Phase::Disconnected
                &&& t.count == self.count
                &&& a == Action::Sleep(self.reconnect_delay_secs)
            },
        }
    }

    /// A disconnected, running state with no failures.
    pub fn new(default_profile: Credentials, escalated_profile: Credentials, reconnect_delay_secs: u64) -> (r: Self)
        ensures
            r.running,
            r.phase == Phase::Disconnected,
            r.count == 0,
            r.reconnect_delay_secs == reconnect_delay_secs,
            r.default_profile == default_profile,
            r.escalated_profile == escalated_profile,
    {
        ConnectionState {
            running: true,
            phase: Phase::Disconnected,
            count: 0,
            reconnect_delay_secs,
            default_profile,
            escalated_profile,
        }
    }

    /// Asks the loop to leave before its next attempt.
    pub fn stop(&mut self)
        ensures
            !final(self).running,
            final(self).phase == old(self).phase,
            final(self).count == old(self).count,
            final(self).reconnect_delay_secs == old(self).reconnect_delay_secs,
            final(self).default_profile == old(self).default_profile,
            final(self).escalated_profile == old(self).escalated_profile,
    {
        self.running = false;
    }

    /// The authentication request for the current failure count.
    pub fn auth(&self) -> (r: Data)
        ensures
            r.service == AUTH_SERVICE,
            r.data@ == self.auth_text(self.count),
    {
        let c = if self.count >= ESCALATION_THRESHOLD {
            &self.escalated_profile
        } else {
            &self.default_profile
        };
        let fields: Vec<(String, String)> = vec![
            ("requestId".to_owned(), "1".to_owned()),
            ("username".to_owned(), c.username.as_str().to_owned()),
            ("password".to_owned(), c.password.as_str().to_owned()),
            ("module_name".to_owned(), c.module_name.as_str().to_owned()),
            ("dc_id".to_owned(), c.dc_id.as_str().to_owned()),
            ("ip".to_owned(), c.ip.as_str().to_owned()),
            ("port".to_owned(), c.port.as_str().to_owned()),
        ];
        proof {
            assert(fields_view(fields@) =~= auth_fields(self.profile_for(self.count)));
        }
        Data { service: AUTH_SERVICE, data: object_text(&fields) }
    }

    /// The reply to a heartbeat ping.
    pub fn heartbeat_reply() -> (r: Data)
        ensures
            r.service == HEARTBEAT_SERVICE,
            r.data@ == json_object_text(heartbeat_fields()),
    {
        let fields: Vec<(String, String)> = vec![
            ("requestId".to_owned(), "1".to_owned()),
            ("hbc".to_owned(), "1".to_owned()),
        ];
        proof {
            assert(fields_view(fields@) =~= heartbeat_fields());
        }
        Data { service: HEARTBEAT_SERVICE, data: object_text(&fields) }
    }

    /// Applies an authentication result: `Some(0)` is success, anything else a
    /// failure, answered at once by a new request.
    pub fn on_auth_result(&mut self, code: Option<i64>) -> (r: Action)
        ensures
            old(self).auth_result_step(code, *final(self), r),
    {
        match code {
            Some(0i64) => {
                self.phase = Phase::Active;
                self.count = 0;
                Action::Idle
            },
            _ => {
                if self.count < u32::MAX {
                    self.count = self.count + 1;
                }
                self.phase = Phase::Authenticating;
                Action::Send(self.auth())
            },
        }
    }

    /// Dispatches a received frame by its service id.
    pub fn on_data_received(&mut self, data: &Data) -> (r: Action)
        ensures
            old(self).received_step(data.service, data.data@, *final(self), r),
    {
        if self.phase != Phase::Authenticating && self.phase != Phase::Active {
            Action::Idle
        } else if data.service == HEARTBEAT_SERVICE {
            Action::Send(Self::heartbeat_reply())
        } else if data.service == AUTH_SERVICE && self.phase == Phase::Authenticating {
            let code = int_member(data.data.as_str(), "r");
            self.on_auth_result(code)
        } else {
            Action::Idle
        }
    }

    /// Takes one step on `event`.
    pub fn handle(&mut self, event: Event) -> (r: Action)
        ensures
            old(self).step(event, *final(self), r),
    {
        match event {
            Event::Resume => {
                if self.phase != Phase::Disconnected {
                    Action::Idle
                } else if self.running {
                    self.phase = Phase::Connecting;
                    Action::Connect
                } else {
                    Action::Stop
                }
            },
            Event::Connected => {
                if self.phase != Phase::Connecting {
                    Action::Idle
                } else {
                    self.phase = Phase::Authenticating;
                    Action::Send(self.auth())
                }
            },
            Event::ConnectFailed => {
                if self.phase != Phase::Connecting {
                    Action::Idle
                } else {
                    self.phase = Phase::Disconnected;
                    Action::Sleep(self.reconnect_delay_secs)
                }
            },
            Event::Received(d) => self.on_data_received(&d),
            Event::Closed => {
                if self.phase != Phase::Authenticating && self.phase != Phase::Active {
                    Action::Idle
                } else {
                    self.phase = Phase::Disconnected;
                    Action::Sleep(self.reconnect_delay_secs)
                }
            },
        }
    }
}

/// A heartbeat ping on an active connection is answered by exactly one
/// heartbeat reply, and leaves phase and failure count as they were.
pub proof fn lemma_heartbeat_echo(s: ConnectionState, d: Data, t: ConnectionState, a: Action)
    requires
        s.phase == Phase::Active,
        d.service == HEARTBEAT_SERVICE,
        s.step(Event::Received(d), t, a),
    ensures
        sends(a, HEARTBEAT_SERVICE, json_object_text(heartbeat_fields())),
        t.phase == Phase::Active,
        t.count == s.count,
{
}

/// The tenth failed authentication in a row switches the next request to the
/// escalated profile; the nine before it keep the default profile.
pub proof fn lemma_auth_failure_escalation(s: ConnectionState, code: Option<i64>, t: ConnectionState, a: Action)
    requires
        code != Some(0i64),
        s.auth_result_step(code, t, a),
    ensures
        s.count == 9 ==> t.count == 10 && sends(
            a,
            AUTH_SERVICE,
            json_object_text(auth_fields(s.escalated_profile)),
        ),
        s.count < 9 ==> t.count == s.count + 1 && sends(
            a,
            AUTH_SERVICE,
            json_object_text(auth_fields(s.default_profile)),
        ),
        t.phase == Phase::Authenticating,
{
}

/// A successful authentication result makes the connection active and clears
/// the failure count, whatever it was.
pub proof fn lemma_auth_success_resets(s: ConnectionState, t: ConnectionState, a: Action)
    requires
        s.auth_result_step(Some(0i64), t, a),
    ensures
        t.phase == Phase::Active,
        t.count == 0,
{
}

/// When an open stream closes, the connection drops to `Disconnected` and
/// pauses for the configured delay; a further closure report then does nothing,
/// and the end of the pause starts exactly one new attempt.
pub proof fn lemma_reconnect_once(
    s: ConnectionState,
    t: ConnectionState,
    a: Action,
    u: ConnectionState,
    b: Action,
    v: ConnectionState,
    c: Action,
    w: ConnectionState,
    e: Action,
)
    requires
        s.is_open(),
        s.running,
        s.step(Event::Closed, t, a),
        t.step(Event::Closed, u, b),
        t.step(Event::Resume, v, c),
        v.step(Event::Resume, w, e),
    ensures
        t.phase == Phase::Disconnected,
        a == Action::Sleep(s.reconnect_delay_secs),
        u.phase == Phase::Disconnected,
        b is Idle,
        v.phase == Phase::Connecting,
        c is Connect,
        w.phase == Phase::Connecting,
        e is Idle,
{
}

/// `states`, `events` and `actions` form a run: each state steps to the next on
/// its event, with its action.
/// Successive calls of `handle` form a run, since each ensures `step`.
pub open spec fn is_run(states: Seq<ConnectionState>, events: Seq<Event>, actions: Seq<Action>) -> bool {
    &&& states.len() == events.len() + 1
    &&& actions.len() == events.len()
    &&& forall|i: int|
        0 <= i < events.len() ==> #[trigger] states[i].step(events[i], states[i + 1], actions[i])
}

proof fn lemma_run_keeps_delay(
    states: Seq<ConnectionState>,
    events: Seq<Event>,
    actions: Seq<Action>,
    k: int,
)
    requires
        is_run(states, events, actions),
        0 <= k <= events.len(),
    ensures
        states[k].reconnect_delay_secs == states[0].reconnect_delay_secs,
    decreases k,
{
    if k > 0 {
        let m = k - 1;
        lemma_run_keeps_delay(states, events, actions, m);
        assert(states[m].step(events[m], states[m + 1], actions[m]));
    }
}

proof fn lemma_attempt_open_until_sleep(
    states: Seq<ConnectionState>,
    events: Seq<Event>,
    actions: Seq<Action>,
    i: int,
    k: int,
)
    requires
        is_run(states, events, actions),
        0 <= i < k <= events.len(),
        actions[i] is Connect,
        forall|m: int| i < m < k ==> !(#[trigger] actions[m] is Sleep),
    ensures
        states[k].phase != Phase::Disconnected,
    decreases k - i,
{
    let m = k - 1;
    assert(states[m].step(events[m], states[m + 1], actions[m]));
    if m > i {
        lemma_attempt_open_until_sleep(states, events, actions, i, k - 1);
    } else {
        assert(states[i].step(events[i], states[i + 1], actions[i]));
    }
}

/// In any run, two connection attempts are always separated by a pause of the
/// configured delay: a closed or failed attempt is retried once per pause, never
/// in a tight loop. So over a run, the attempts number at most one more than
/// the pauses.
pub proof fn lemma_no_reconnect_storm(
    states: Seq<ConnectionState>,
    events: Seq<Event>,
    actions: Seq<Action>,
    i: int,
    j: int,
)
    requires
        is_run(states, events, actions),
        0 <= i < j < events.len(),
        actions[i] is Connect,
        actions[j] is Connect,
    ensures
        exists|k: int|
            i < k < j && #[trigger] actions[k] == Action::Sleep(states[0].reconnect_delay_secs),
{
    assert(states[j].step(events[j], states[j + 1], actions[j]));
    if forall|m: int| i < m < j ==> !(#[trigger] actions[m] is Sleep) {
        lemma_attempt_open_until_sleep(states, events, actions, i, j);
    } else {
        let k = choose|m: int| i < m < j && (#[trigger] actions[m] is Sleep);
        assert(states[k].step(events[k], states[k + 1], actions[k]));
        lemma_run_keeps_delay(states, events, actions, k);
        assert(actions[k] == Action::Sleep(states[0].reconnect_delay_secs));
    }
}

} // verus!
