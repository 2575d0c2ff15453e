//! The state machines of a realtime connection and of a channel: which
//! event moves which state where, and what a transition records.

use crate::protocol::messages::ErrorInfo;
use crate::time::{duration_as_nanos, instant_gap_nanos, instant_now};
use std::time::Duration;
use std::time::Instant;
use vstd::prelude::*;

verus! {

/// The states of a realtime connection.
#[derive(Debug, Clone, Copy, PartialEq, Eq, Structural)]
pub enum ConnectionState {
    Initialized,
    Connecting,
    Connected,
    Disconnected,
    Suspended,
    Closing,
    Closed,
    Failed,
}

/// The events that move a connection between states.
#[derive(Debug, Clone)]
pub enum ConnectionEvent {
    Connect,
    /// The connection is up, with this connection id.
    Connected(String),
    Disconnect,
    Disconnected(Option<ErrorInfo>),
    Close,
    Closed,
    Error(ErrorInfo),
    Suspend,
    Retry,
}

/// Error codes that fail a connection outright: 40000 to 40199.
pub open spec fn spec_is_fatal(code: u16) -> bool {
    40000 <= code <= 40199
}

/// The state a connection in state `s` moves to on event `e`.
pub open spec fn next_connection_state(s: ConnectionState, e: ConnectionEvent) -> ConnectionState {
    match (s, e) {
        (ConnectionState::Initialized, ConnectionEvent::Connect) => ConnectionState::Connecting,
        (ConnectionState::Connecting, ConnectionEvent::Connected(_)) => ConnectionState::Connected,
        (ConnectionState::Connecting, ConnectionEvent::Disconnected(_)) => ConnectionState::Disconnected,
        (ConnectionState::Connecting, ConnectionEvent::Error(_)) => ConnectionState::Failed,
        (ConnectionState::Connecting, ConnectionEvent::Close) => ConnectionState::Closing,
        (ConnectionState::Connected, ConnectionEvent::Disconnect) => ConnectionState::Disconnected,
        (ConnectionState::Connected, ConnectionEvent::Disconnected(_)) => ConnectionState::Disconnected,
        (ConnectionState::Connected, ConnectionEvent::Close) => ConnectionState::Closing,
        (ConnectionState::Connected, ConnectionEvent::Error(err)) => if spec_is_fatal(err.code) {
            ConnectionState::Failed
        } else {
            ConnectionState::Disconnected
        },
        (ConnectionState::Disconnected, ConnectionEvent::Connect) => ConnectionState::Connecting,
        (ConnectionState::Disconnected, ConnectionEvent::Retry) => ConnectionState::Connecting,
        (ConnectionState::Disconnected, ConnectionEvent::Suspend) => ConnectionState::Suspended,
        (ConnectionState::Disconnected, ConnectionEvent::Close) => ConnectionState::Closing,
        (ConnectionState::Suspended, ConnectionEvent::Connect) => ConnectionState::Connecting,
        (ConnectionState::Suspended, ConnectionEvent::Close) => ConnectionState::Closing,
        (ConnectionState::Closing, ConnectionEvent::Closed) => ConnectionState::Closed,
        (ConnectionState::Closing, ConnectionEvent::Error(_)) => ConnectionState::Failed,
        (ConnectionState::Closed, _) => ConnectionState::Closed,
        (ConnectionState::Failed, ConnectionEvent::Connect) => ConnectionState::Connecting,
        (ConnectionState::Failed, _) => ConnectionState::Failed,
        _ => s,
    }
}

/// The error an event carries, if any.
pub open spec fn event_error(e: ConnectionEvent) -> Option<ErrorInfo> {
    match e {
        ConnectionEvent::Error(err) => Some(err),
        ConnectionEvent::Disconnected(Some(err)) => Some(err),
        _ => None,
    }
}

/// One recorded transition of a connection.
#[derive(Debug, Clone)]
pub struct StateTransition {
    pub from: ConnectionState,
    pub to: ConnectionState,
    pub event: ConnectionEvent,
    pub timestamp: Instant,
    pub error: Option<ErrorInfo>,
}

impl ConnectionEvent {
    /// A copy of the event.
    pub fn duplicate(&self) -> (r: ConnectionEvent)
        ensures
            r == *self,
    {
        match self {
            ConnectionEvent::Connect => ConnectionEvent::Connect,
            ConnectionEvent::Connected(id) => ConnectionEvent::Connected(id.clone()),
            ConnectionEvent::Disconnect => ConnectionEvent::Disconnect,
            ConnectionEvent::Disconnected(e) => ConnectionEvent::Disconnected(match e {
                Some(info) => Some(info.duplicate()),
                None => None,
            }),
            ConnectionEvent::Close => ConnectionEvent::Close,
            ConnectionEvent::Closed => ConnectionEvent::Closed,
            ConnectionEvent::Error(info) => ConnectionEvent::Error(info.duplicate()),
            ConnectionEvent::Suspend => ConnectionEvent::Suspend,
            ConnectionEvent::Retry => ConnectionEvent::Retry,
        }
    }
}

impl StateTransition {
    /// A copy of the transition.
    pub fn duplicate(&self) -> (r: StateTransition)
        ensures
            r == *self,
    {
        StateTransition {
            from: self.from,
            to: self.to,
            event: self.event.duplicate(),
            timestamp: self.timestamp.clone(),
            error: match &self.error {
                Some(info) => Some(info.duplicate()),
                None => None,
            },
        }
    }
}

/// The longest the transition history grows before it is halved.
pub const HISTORY_LIMIT: usize = 100;

/// The state machine of a realtime connection: the current state, the
/// connection id and last error, the retry count and a bounded history of
/// transitions.
#[derive(Debug)]
pub struct ConnectionStateMachine {
    state: ConnectionState,
    connection_id: Option<String>,
    error_info: Option<ErrorInfo>,
    state_history: Vec<StateTransition>,
    retry_count: u32,
    last_activity: Instant,
}

impl ConnectionStateMachine {
    #[verifier::type_invariant]
    spec fn history_bounded(self) -> bool {
        self.state_history@.len() <= HISTORY_LIMIT
    }

    /// The current state.
    pub closed spec fn spec_state(&self) -> ConnectionState {
        self.state
    }

    /// The connection id, once connected.
    pub closed spec fn spec_connection_id(&self) -> Option<String> {
        self.connection_id
    }

    /// The last error an event carried.
    pub closed spec fn spec_error(&self) -> Option<ErrorInfo> {
        self.error_info
    }

    /// The number of retries since the last connection.
    pub closed spec fn spec_retry_count(&self) -> u32 {
        self.retry_count
    }

    /// The recorded transitions, oldest first.
    pub closed spec fn spec_history(&self) -> Seq<StateTransition> {
        self.state_history@
    }

    /// The clock reading at the last transition.
    pub closed spec fn spec_last_activity(&self) -> Instant {
        self.last_activity
    }

    /// A machine in state `Initialized`, with nothing recorded.
    pub fn new() -> (m: ConnectionStateMachine)
        ensures
            m.spec_state() == ConnectionState::Initialized,
            m.spec_connection_id() is None,
            m.spec_error() is None,
            m.spec_retry_count() == 0,
            m.spec_history().len() == 0,
    {
        ConnectionStateMachine {
            state: ConnectionState::Initialized,
            connection_id: None,
            error_info: None,
            state_history: Vec::new(),
            retry_count: 0,
            last_activity: instant_now(),
        }
    }

    /// The current state.
    pub fn state(&self) -> (s: ConnectionState)
        ensures
            s == self.spec_state(),
    {
        self.state
    }

    /// The connection id, once connected.
    pub fn connection_id(&self) -> (r: Option<String>)
        ensures
            match (r, self.spec_connection_id()) {
                (Some(a), Some(b)) => a@ == b@,
                (None, None) => true,
                _ => false,
            },
    {
        match &self.connection_id {
            Some(id) => Some(id.clone()),
            None => None,
        }
    }

    /// The last error an event carried.
    pub fn error(&self) -> (r: Option<ErrorInfo>)
        ensures
            r == self.spec_error(),
    {
        match &self.error_info {
            Some(e) => Some(e.clone()),
            None => None,
        }
    }

    /// Whether an error code fails the connection outright.
    pub fn is_fatal_error(&self, error: &ErrorInfo) -> (b: bool)
        ensures
            b == spec_is_fatal(error.code),
    {
        40000 <= error.code && error.code <= 40199
    }

    /// The state that `current` moves to on `event`.
    pub fn handle_transition(&self, current: ConnectionState, event: &ConnectionEvent) -> (s: ConnectionState)
        ensures
            s == next_connection_state(current, *event),
    {
        match (current, event) {
            (ConnectionState::Initialized, ConnectionEvent::Connect) => ConnectionState::Connecting,
            (ConnectionState::Connecting, ConnectionEvent::Connected(_)) => ConnectionState::Connected,
            (ConnectionState::Connecting, ConnectionEvent::Disconnected(_)) => ConnectionState::Disconnected,
            (ConnectionState::Connecting, ConnectionEvent::Error(_)) => ConnectionState::Failed,
            (ConnectionState::Connecting, ConnectionEvent::Close) => ConnectionState::Closing,
            (ConnectionState::Connected, ConnectionEvent::Disconnect) => ConnectionState::Disconnected,
            (ConnectionState::Connected, ConnectionEvent::Disconnected(_)) => ConnectionState::Disconnected,
            (ConnectionState::Connected, ConnectionEvent::Close) => ConnectionState::Closing,
            (ConnectionState::Connected, ConnectionEvent::Error(e)) => if self.is_fatal_error(e) {
                ConnectionState::Failed
            } else {
                ConnectionState::Disconnected
            },
            (ConnectionState::Disconnected, ConnectionEvent::Connect) => ConnectionState::Connecting,
            (ConnectionState::Disconnected, ConnectionEvent::Retry) => ConnectionState::Connecting,
            (ConnectionState::Disconnected, ConnectionEvent::Suspend) => ConnectionState::Suspended,
            (ConnectionState::Disconnected, ConnectionEvent::Close) => ConnectionState::Closing,
            (ConnectionState::Suspended, ConnectionEvent::Connect) => ConnectionState::Connecting,
            (ConnectionState::Suspended, ConnectionEvent::Close) => ConnectionState::Closing,
            (ConnectionState::Closing, ConnectionEvent::Closed) => ConnectionState::Closed,
            (ConnectionState::Closing, ConnectionEvent::Error(_)) => ConnectionState::Failed,
            (ConnectionState::Closed, _) => ConnectionState::Closed,
            (ConnectionState::Failed, ConnectionEvent::Connect) => ConnectionState::Connecting,
            (ConnectionState::Failed, _) => ConnectionState::Failed,
            _ => current,
        }
    }

    /// Feeds one event to the machine. When the event moves the state, the
    /// transition is carried out and recorded, and the pair of states is
    /// returned for the listeners; otherwise nothing changes.
    pub fn process_event(&mut self, event: ConnectionEvent) -> (moved: Option<(ConnectionState, ConnectionState)>)
        requires
            event is Retry ==> old(self).spec_retry_count() < u32::MAX,
        ensures
            processed(*old(self), *final(self), event, moved),
    {
        let current = self.state;
        let new_state = self.handle_transition(current, &event);
        if new_state != current {
            self.transition_to(new_state, event);
            Some((current, new_state))
        } else {
            None
        }
    }

    /// Moves to `new_state` on `event`: records the connection id on
    /// `Connected` (and clears the retries), the error an event carries,
    /// one more retry on `Retry`, and the transition in the history, which
    /// is halved once it grows past its limit.
    pub fn transition_to(&mut self, new_state: ConnectionState, event: ConnectionEvent)
        requires
            event is Retry ==> old(self).spec_retry_count() < u32::MAX,
        ensures
            transitioned(*old(self), *final(self), new_state, event),
    {
        proof {
            use_type_invariant(&*self);
        }
        let current_state = self.state;
        self.state = new_state;
        match &event {
            ConnectionEvent::Connected(id) => {
                self.connection_id = Some(id.clone());
                self.retry_count = 0;
            },
            ConnectionEvent::Error(e) => {
                self.error_info = Some(e.clone());
            },
            ConnectionEvent::Disconnected(Some(e)) => {
                self.error_info = Some(e.clone());
            },
            ConnectionEvent::Retry => {
                self.retry_count = self.retry_count + 1;
            },
            _ => {},
        }
        self.last_activity = instant_now();
        let error = match &event {
            ConnectionEvent::Error(e) => Some(e.clone()),
            ConnectionEvent::Disconnected(Some(e)) => Some(e.clone()),
            _ => None,
        };
        let record = StateTransition {
            from: current_state,
            to: new_state,
            event,
            timestamp: instant_now(),
            error,
        };
        let mut history: Vec<StateTransition> = Vec::new();
        std::mem::swap(&mut history, &mut self.state_history);
        history.push(record);
        let ghost pushed = history@;
        if history.len() > HISTORY_LIMIT {
            let kept = history.split_off(50);
            history = kept;
            proof {
                assert(history@.drop_last() =~= pushed.drop_last().skip(50));
            }
        }
        proof {
            assert(pushed.drop_last() =~= old(self).spec_history());
        }
        self.state_history = history;
    }

    /// The number of retries since the last connection.
    pub fn retry_count(&self) -> (n: u32)
        ensures
            n == self.spec_retry_count(),
    {
        self.retry_count
    }

    /// The time since the last transition: the gap from the clock's
    /// present reading to the reading at the last transition.
    pub fn idle_time(&self) -> (d: Duration)
        ensures
            exists|now: Instant| duration_as_nanos(d) == #[trigger] instant_gap_nanos(now, self.spec_last_activity()),
    {
        let d = crate::time::elapsed_since(&self.last_activity);
        proof {
            let now = choose|now: Instant| duration_as_nanos(d) == #[trigger] instant_gap_nanos(now, self.last_activity);
            assert(duration_as_nanos(d) == instant_gap_nanos(now, self.spec_last_activity()));
        }
        d
    }

    /// Whether the connection should be suspended: after more than ten
    /// retries, or after more than two minutes without a transition, as
    /// the clock reads now.
    pub fn should_suspend(&self) -> (b: bool)
        ensures
            self.spec_retry_count() > 10 ==> b,
            exists|now: Instant|
                b == (self.spec_retry_count() > 10 || #[trigger] instant_gap_nanos(now, self.spec_last_activity())
                    > 120_000_000_000),
    {
        let idle = crate::time::elapsed_since(&self.last_activity);
        let limit = Duration::from_secs(120);
        let b = suspend_due(self.retry_count, idle.as_nanos() > limit.as_nanos());
        proof {
            let now = choose|now: Instant| duration_as_nanos(idle) == #[trigger] instant_gap_nanos(now, self.last_activity);
            assert(b == (self.spec_retry_count() > 10 || instant_gap_nanos(now, self.spec_last_activity()) > 120_000_000_000));
        }
        b
    }

    /// The recorded transitions, oldest first.
    pub fn history(&self) -> (h: Vec<StateTransition>)
        ensures
            h@ == self.spec_history(),
            h@.len() <= HISTORY_LIMIT,
    {
        proof {
            use_type_invariant(self);
        }
        let mut h: Vec<StateTransition> = Vec::new();
        let mut i: usize = 0;
        while i < self.state_history.len()
            invariant
                0 <= i <= self.state_history@.len(),
                h@ == self.state_history@.subrange(0, i as int),
            decreases self.state_history@.len() - i,
        {
            h.push(self.state_history[i].duplicate());
            i = i + 1;
        }
        proof {
            assert(self.state_history@.subrange(0, self.state_history@.len() as int) =~= self.state_history@);
        }
        h
    }

    /// Back to `Initialized`, forgetting the id, the error, the retries and
    /// the history.
    pub fn reset(&mut self)
        ensures
            final(self).spec_state() == ConnectionState::Initialized,
            final(self).spec_connection_id() is None,
            final(self).spec_error() is None,
            final(self).spec_retry_count() == 0,
            final(self).spec_history().len() == 0,
    {
        proof {
            use_type_invariant(&*self);
        }
        self.state = ConnectionState::Initialized;
        self.connection_id = None;
        self.error_info = None;
        self.retry_count = 0;
        self.state_history = Vec::new();
    }
}

/// `m1` is `m0` after a transition to `s1` on event `e`.
pub open spec fn transitioned(m0: ConnectionStateMachine, m1: ConnectionStateMachine, s1: ConnectionState, e: ConnectionEvent) -> bool {
    &&& m1.spec_state() == s1
    &&& m1.spec_connection_id() == (match e {
        ConnectionEvent::Connected(id) => Some(id),
        _ => m0.spec_connection_id(),
    })
    &&& m1.spec_error() == (match event_error(e) {
        Some(err) => Some(err),
        None => m0.spec_error(),
    })
    &&& m1.spec_retry_count() == (match e {
        ConnectionEvent::Connected(_) => 0,
        ConnectionEvent::Retry => (m0.spec_retry_count() + 1) as u32,
        _ => m0.spec_retry_count(),
    })
    &&& m1.spec_history().len() == if m0.spec_history().len() + 1 > HISTORY_LIMIT {
        m0.spec_history().len() + 1 - 50int
    } else {
        m0.spec_history().len() + 1int
    }
    &&& m1.spec_history().drop_last() == if m0.spec_history().len() + 1 > HISTORY_LIMIT {
        m0.spec_history().skip(50)
    } else {
        m0.spec_history()
    }
    &&& m1.spec_history().last().from == m0.spec_state()
    &&& m1.spec_history().last().to == s1
    &&& m1.spec_history().last().event == e
    &&& m1.spec_history().last().error == event_error(e)
}

/// Whether a connection is due for suspension, given its retry count and
/// whether it has been idle past the limit.
pub fn suspend_due(retry_count: u32, idle_exceeded: bool) -> (b: bool)
    ensures
        b == (retry_count > 10 || idle_exceeded),
{
    retry_count > 10 || idle_exceeded
}

/// What processing `event` does to machine `m0`, leaving `m1` and
/// reporting `moved`: nothing when the event does not change the state,
/// else the recorded transition to the next state.
pub open spec fn processed(
    m0: ConnectionStateMachine,
    m1: ConnectionStateMachine,
    event: ConnectionEvent,
    moved: Option<(ConnectionState, ConnectionState)>,
) -> bool {
    let s0 = m0.spec_state();
    let s1 = next_connection_state(s0, event);
    if s1 == s0 {
        &&& moved is None
        &&& m1.spec_state() == s0
        &&& m1.spec_connection_id() == m0.spec_connection_id()
        &&& m1.spec_error() == m0.spec_error()
        &&& m1.spec_retry_count() == m0.spec_retry_count()
        &&& m1.spec_history() == m0.spec_history()
    } else {
        &&& moved == Some((s0, s1))
        &&& transitioned(m0, m1, s1, event)
    }
}

/// From `Connected`, an error whose code is outside the fatal range
/// 40000..=40199 disconnects the connection, so that it can retry; only an
/// error with a fatal code fails it.
pub proof fn law_connected_error_fails_only_when_fatal(e: ErrorInfo)
    ensures
        (e.code < 40000 || e.code > 40199) ==> next_connection_state(ConnectionState::Connected, ConnectionEvent::Error(e))
            == ConnectionState::Disconnected,
        (40000 <= e.code && e.code <= 40199) ==> next_connection_state(
            ConnectionState::Connected,
            ConnectionEvent::Error(e),
        ) == ConnectionState::Failed,
{
}

/// A connected machine that processes a non-fatal error reports the move
/// from `Connected` to `Disconnected`, and is then disconnected.
pub proof fn law_non_fatal_error_disconnects(
    m0: ConnectionStateMachine,
    m1: ConnectionStateMachine,
    e: ErrorInfo,
    moved: Option<(ConnectionState, ConnectionState)>,
)
    requires
        m0.spec_state() == ConnectionState::Connected,
        e.code < 40000 || e.code > 40199,
        processed(m0, m1, ConnectionEvent::Error(e), moved),
    ensures
        moved == Some((ConnectionState::Connected, ConnectionState::Disconnected)),
        m1.spec_state() == ConnectionState::Disconnected,
        m1.spec_error() == Some(e),
{
}

/// A closed connection stays closed, whatever the event.
pub proof fn law_closed_is_final(e: ConnectionEvent)
    ensures
        next_connection_state(ConnectionState::Closed, e) == ConnectionState::Closed,
{
}

/// A failed connection leaves the failed state only to connect again.
pub proof fn law_failed_leaves_only_by_connect(e: ConnectionEvent)
    ensures
        next_connection_state(ConnectionState::Failed, e) != ConnectionState::Failed ==> (e is Connect
            && next_connection_state(ConnectionState::Failed, e) == ConnectionState::Connecting),
{
}

/// A connection reaches `Connected` only from `Connecting`, on a
/// `Connected` event.
pub proof fn law_connected_only_from_connecting(s: ConnectionState, e: ConnectionEvent)
    ensures
        next_connection_state(s, e) == ConnectionState::Connected && s != ConnectionState::Connected ==> (
        s == ConnectionState::Connecting && e is Connected),
{
}

/// The states of a channel.
#[derive(Debug, Clone, Copy, PartialEq, Eq, Structural)]
pub enum ChannelState {
    Initialized,
    Attaching,
    Attached,
    Detaching,
    Detached,
    Suspended,
    Failed,
}

/// The events that move a channel between states.
#[derive(Debug, Clone)]
pub enum ChannelEvent {
    Attach,
    Attached,
    Detach,
    Detached,
    Suspend,
    Error(ErrorInfo),
}

/// The state a channel in state `s` moves to on event `e`.
pub open spec fn next_channel_state(s: ChannelState, e: ChannelEvent) -> ChannelState {
    match (s, e) {
        (ChannelState::Initialized, ChannelEvent::Attach) => ChannelState::Attaching,
        (ChannelState::Attaching, ChannelEvent::Attached) => ChannelState::Attached,
        (ChannelState::Attaching, ChannelEvent::Error(_)) => ChannelState::Failed,
        (ChannelState::Attached, ChannelEvent::Detach) => ChannelState::Detaching,
        (ChannelState::Attached, ChannelEvent::Suspend) => ChannelState::Suspended,
        (ChannelState::Detaching, ChannelEvent::Detached) => ChannelState::Detached,
        (ChannelState::Detached, ChannelEvent::Attach) => ChannelState::Attaching,
        (ChannelState::Suspended, ChannelEvent::Attach) => ChannelState::Attaching,
        _ => s,
    }
}

/// The state machine of one channel.
#[derive(Debug)]
pub struct ChannelStateMachine {
    state: ChannelState,
    channel_name: String,
    error_info: Option<ErrorInfo>,
}

impl ChannelStateMachine {
    /// The current state.
    pub closed spec fn spec_state(&self) -> ChannelState {
        self.state
    }

    /// The last error that moved the channel.
    pub closed spec fn spec_error(&self) -> Option<ErrorInfo> {
        self.error_info
    }

    /// The channel's name.
    pub closed spec fn spec_name(&self) -> Seq<char> {
        self.channel_name@
    }

    /// A machine for `channel_name` in state `Initialized`.
    pub fn new(channel_name: String) -> (m: ChannelStateMachine)
        ensures
            m.spec_state() == ChannelState::Initialized,
            m.spec_error() is None,
            m.spec_name() == channel_name@,
    {
        ChannelStateMachine { state: ChannelState::Initialized, channel_name, error_info: None }
    }

    /// The current state.
    pub fn state(&self) -> (s: ChannelState)
        ensures
            s == self.spec_state(),
    {
        self.state
    }

    /// Feeds one event to the machine; an error that moves the channel is
    /// kept.
    pub fn process_event(&mut self, event: ChannelEvent)
        ensures
            final(self).spec_state() == next_channel_state(old(self).spec_state(), event),
            final(self).spec_name() == old(self).spec_name(),
            final(self).spec_error() == (match event {
                ChannelEvent::Error(e) => if next_channel_state(old(self).spec_state(), event) != old(self).spec_state() {
                    Some(e)
                } else {
                    old(self).spec_error()
                },
                _ => old(self).spec_error(),
            }),
    {
        let current = self.state;
        let new_state = self.handle_transition(current, &event);
        if new_state != current {
            self.state = new_state;
            match event {
                ChannelEvent::Error(e) => {
                    self.error_info = Some(e);
                },
                _ => {},
            }
        }
    }

    /// The state that `current` moves to on `event`.
    pub fn handle_transition(&self, current: ChannelState, event: &ChannelEvent) -> (s: ChannelState)
        ensures
            s == next_channel_state(current, *event),
    {
        match (current, event) {
            (ChannelState::Initialized, ChannelEvent::Attach) => ChannelState::Attaching,
            (ChannelState::Attaching, ChannelEvent::Attached) => ChannelState::Attached,
            (ChannelState::Attaching, ChannelEvent::Error(_)) => ChannelState::Failed,
            (ChannelState::Attached, ChannelEvent::Detach) => ChannelState::Detaching,
            (ChannelState::Attached, ChannelEvent::Suspend) => ChannelState::Suspended,
            (ChannelState::Detaching, ChannelEvent::Detached) => ChannelState::Detached,
            (ChannelState::Detached, ChannelEvent::Attach) => ChannelState::Attaching,
            (ChannelState::Suspended, ChannelEvent::Attach) => ChannelState::Attaching,
            _ => current,
        }
    }
}

/// A failed channel stays failed, whatever the event.
pub proof fn law_failed_channel_is_final(e: ChannelEvent)
    ensures
        next_channel_state(ChannelState::Failed, e) == ChannelState::Failed,
{
}

/// A channel becomes attached only from attaching, on an `Attached` event.
pub proof fn law_attached_only_from_attaching(s: ChannelState, e: ChannelEvent)
    ensures
        next_channel_state(s, e) == ChannelState::Attached && s != ChannelState::Attached ==> (
        s == ChannelState::Attaching && e is Attached),
{
}

} // verus!
