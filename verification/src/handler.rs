use vstd::prelude::*;

use crate::message::Frame;

verus! {

/// Milliseconds between liveness probes.
pub const HEARTBEAT_INTERVAL_MS: u64 = 5000;

/// Milliseconds of silence after which a connection is considered dead. At
/// least double the probe interval, to tolerate one missed probe.
pub const CLIENT_TIMEOUT_MS: u64 = 10000;

/// The lifecycle of one connection: `Handshaking -> Open -> Closing ->
/// Closed`, with `Closed` terminal. Only an authenticated handshake reaches
/// `Open`; a failed one goes straight to `Closed` with no registry entry.
#[derive(Clone, Copy, PartialEq, Eq, Structural, Debug)]
pub enum HandlerState {
    Handshaking,
    Open,
    Closing,
    Closed,
}

/// Heartbeat timing: how often probes are sent and how long silence is
/// tolerated.
#[derive(Clone, Copy, PartialEq, Eq, Structural, Debug)]
pub struct HandlerConfig {
    pub probe_interval: u64,
    pub client_timeout: u64,
}

impl HandlerConfig {
    /// The timeout tolerates at least one missed probe.
    pub open spec fn wf(self) -> bool {
        self.probe_interval > 0 && self.client_timeout >= 2 * self.probe_interval
    }

    pub fn new(probe_interval: u64, client_timeout: u64) -> (r: HandlerConfig)
        requires
            probe_interval > 0,
            client_timeout >= 2 * probe_interval,
        ensures
            r.probe_interval == probe_interval,
            r.client_timeout == client_timeout,
            r.wf(),
    {
        HandlerConfig { probe_interval, client_timeout }
    }

    /// The timing the platform runs with.
    pub fn default_config() -> (r: HandlerConfig)
        ensures
            r.probe_interval == HEARTBEAT_INTERVAL_MS,
            r.client_timeout == CLIENT_TIMEOUT_MS,
            r.wf(),
    {
        HandlerConfig { probe_interval: HEARTBEAT_INTERVAL_MS, client_timeout: CLIENT_TIMEOUT_MS }
    }
}

/// One of the things an open handler wakes up on: an inbound frame, a
/// transport error, a heartbeat timer tick, or a shutdown signal. Times are
/// milliseconds on the caller's clock.
#[derive(Debug, PartialEq)]
pub enum HandlerEvent {
    Inbound { frame: Frame, now: u64 },
    InboundError { now: u64 },
    Tick { now: u64 },
    Shutdown,
}

/// What the surrounding task must do after a step: relay a frame to the
/// session's other connections (excluding this one), refresh this
/// connection's heartbeat in the registry, answer a ping, send a liveness
/// probe, or unregister and release the transport.
#[derive(Debug, PartialEq)]
pub enum HandlerAction {
    RelayToSession(Frame),
    RefreshHeartbeat(u64),
    SendPong(Vec<u8>),
    SendPing,
    CloseConnection,
}

/// The decision state of one supervised connection task: where it is in its
/// lifecycle, which connection and session it serves, and when the client
/// was last heard from.
pub struct ConnectionHandler {
    pub state: HandlerState,
    pub conn_id: u64,
    pub session_token: String,
    pub last_heartbeat: u64,
    pub config: HandlerConfig,
}

/// Milliseconds passed since `last`, treating a clock that jumped backwards
/// as no time passed.
pub open spec fn elapsed_since(now: u64, last: u64) -> int {
    if now >= last {
        now - last
    } else {
        0
    }
}

impl ConnectionHandler {
    /// How a timer tick moves the handler: past the timeout it starts
    /// closing; within it, it stays as it was (and a probe is sent). The
    /// heartbeat itself only moves on inbound traffic, never on a tick.
    pub open spec fn tick_transition(pre: ConnectionHandler, post: ConnectionHandler, now: u64) -> bool {
        &&& post.conn_id == pre.conn_id
        &&& post.session_token == pre.session_token
        &&& post.config == pre.config
        &&& post.last_heartbeat == pre.last_heartbeat
        &&& post.state == (if elapsed_since(now, pre.last_heartbeat) > pre.config.client_timeout {
            HandlerState::Closing
        } else {
            pre.state
        })
    }

    /// A handler waiting for its client's handshake.
    pub fn begin(config: HandlerConfig) -> (h: ConnectionHandler)
        ensures
            h.state == HandlerState::Handshaking,
            h.config == config,
    {
        ConnectionHandler {
            state: HandlerState::Handshaking,
            conn_id: 0,
            session_token: String::new(),
            last_heartbeat: 0,
            config,
        }
    }

    /// The handshake authenticated: the connection was registered under
    /// `conn_id` and the handler enters `Open`.
    pub fn open(&mut self, conn_id: u64, session_token: String, now: u64)
        requires
            old(self).state == HandlerState::Handshaking,
        ensures
            final(self).state == HandlerState::Open,
            final(self).conn_id == conn_id,
            final(self).session_token == session_token,
            final(self).last_heartbeat == now,
            final(self).config == old(self).config,
    {
        self.state = HandlerState::Open;
        self.conn_id = conn_id;
        self.session_token = session_token;
        self.last_heartbeat = now;
    }

    /// The handshake failed to authenticate: the handler never opens, and no
    /// registry entry exists for it.
    pub fn fail_handshake(&mut self)
        requires
            old(self).state == HandlerState::Handshaking,
        ensures
            final(self).state == HandlerState::Closed,
            final(self).conn_id == old(self).conn_id,
            final(self).session_token == old(self).session_token,
            final(self).last_heartbeat == old(self).last_heartbeat,
            final(self).config == old(self).config,
    {
        self.state = HandlerState::Closed;
    }

    /// One turn of the open handler's loop: decides, from the event alone,
    /// the next state and the actions the surrounding task must perform.
    ///
    /// Inbound text or binary is relayed to the session's other connections
    /// and counts as a heartbeat; a ping is answered with a pong; a pong
    /// refreshes the heartbeat; a close frame, a transport error or a
    /// shutdown signal starts closing. A timer tick starts closing when the
    /// client has been silent longer than the timeout, and otherwise sends a
    /// liveness probe.
    pub fn step(&mut self, event: HandlerEvent) -> (actions: Vec<HandlerAction>)
        requires
            old(self).state == HandlerState::Open,
        ensures
            final(self).conn_id == old(self).conn_id,
            final(self).session_token == old(self).session_token,
            final(self).config == old(self).config,
            event matches HandlerEvent::Inbound { frame, now } ==> {
                &&& (frame matches Frame::Text(_) || frame matches Frame::Binary(_)) ==> {
                    &&& final(self).state == HandlerState::Open
                    &&& final(self).last_heartbeat == now
                    &&& actions@.len() == 2
                    &&& (actions@[0] matches HandlerAction::RelayToSession(g) && g@ == frame@)
                    &&& actions@[1] == HandlerAction::RefreshHeartbeat(now)
                }
                &&& frame matches Frame::Ping(b) ==> {
                    &&& final(self).state == HandlerState::Open
                    &&& final(self).last_heartbeat == now
                    &&& actions@.len() == 1
                    &&& (actions@[0] matches HandlerAction::SendPong(p) && p@ == b@)
                }
                &&& (frame matches Frame::Pong(_)) ==> {
                    &&& final(self).state == HandlerState::Open
                    &&& final(self).last_heartbeat == now
                    &&& actions@ == seq![HandlerAction::RefreshHeartbeat(now)]
                }
                &&& (frame matches Frame::Close(_)) ==> {
                    &&& final(self).state == HandlerState::Closing
                    &&& final(self).last_heartbeat == old(self).last_heartbeat
                    &&& actions@ == seq![HandlerAction::CloseConnection]
                }
                &&& (frame matches Frame::Continuation(_) || frame matches Frame::Nop) ==> {
                    &&& final(self).state == HandlerState::Open
                    &&& final(self).last_heartbeat == now
                    &&& actions@.len() == 0
                }
            },
            event matches HandlerEvent::Tick { now } ==> Self::tick_transition(
                *old(self),
                *final(self),
                now,
            ) && (if elapsed_since(now, old(self).last_heartbeat) > old(self).config.client_timeout {
                actions@ == seq![HandlerAction::CloseConnection]
            } else {
                actions@ == seq![HandlerAction::SendPing]
            }),
            event matches HandlerEvent::InboundError { now } ==> final(self).state
                == HandlerState::Closing && actions@ == seq![HandlerAction::CloseConnection],
            event matches HandlerEvent::Shutdown ==> final(self).state == HandlerState::Closing
                && actions@ == seq![HandlerAction::CloseConnection],
    {
        let mut actions: Vec<HandlerAction> = Vec::new();
        match event {
            HandlerEvent::Inbound { frame, now } => {
                match frame {
                    Frame::Text(s) => {
                        actions.push(HandlerAction::RelayToSession(Frame::Text(s)));
                        actions.push(HandlerAction::RefreshHeartbeat(now));
                        self.last_heartbeat = now;
                    },
                    Frame::Binary(b) => {
                        actions.push(HandlerAction::RelayToSession(Frame::Binary(b)));
                        actions.push(HandlerAction::RefreshHeartbeat(now));
                        self.last_heartbeat = now;
                    },
                    Frame::Ping(b) => {
                        actions.push(HandlerAction::SendPong(b));
                        self.last_heartbeat = now;
                    },
                    Frame::Pong(_) => {
                        actions.push(HandlerAction::RefreshHeartbeat(now));
                        self.last_heartbeat = now;
                    },
                    Frame::Close(_) => {
                        actions.push(HandlerAction::CloseConnection);
                        self.state = HandlerState::Closing;
                    },
                    Frame::Continuation(_) => {
                        self.last_heartbeat = now;
                    },
                    Frame::Nop => {
                        self.last_heartbeat = now;
                    },
                }
            },
            HandlerEvent::Tick { now } => {
                let silent_for = if now >= self.last_heartbeat {
                    now - self.last_heartbeat
                } else {
                    0
                };
                if silent_for > self.config.client_timeout {
                    actions.push(HandlerAction::CloseConnection);
                    self.state = HandlerState::Closing;
                } else {
                    actions.push(HandlerAction::SendPing);
                }
            },
            HandlerEvent::InboundError { now: _ } => {
                actions.push(HandlerAction::CloseConnection);
                self.state = HandlerState::Closing;
            },
            HandlerEvent::Shutdown => {
                actions.push(HandlerAction::CloseConnection);
                self.state = HandlerState::Closing;
            },
        }
        actions
    }

    /// The inductive core of the timeout law: walking the ticks from `j`, a
    /// still-open handler with heartbeat `h` closes by the first tick past
    /// `h + client_timeout`, which comes at most one probe interval later.
    #[verifier::rlimit(100)]
    #[verifier::spinoff_prover]
    proof fn lemma_timeout_run(states: Seq<ConnectionHandler>, ticks: Seq<u64>, h: u64, j: int)
        requires
            states.len() == ticks.len() + 1,
            ticks.len() > 0,
            states[0].config.wf(),
            forall|k: int|
                0 <= k < ticks.len() - 1 ==> (#[trigger] ticks[k]) <= ticks[k + 1] && ticks[k
                    + 1] <= ticks[k] + states[0].config.probe_interval,
            h <= ticks[0],
            ticks[0] <= h + states[0].config.probe_interval,
            forall|k: int|
                0 <= k < ticks.len() ==> Self::tick_transition(
                    #[trigger] states[k],
                    states[k + 1],
                    ticks[k],
                ),
            ticks.last() > h + states[0].config.client_timeout,
            0 <= j < ticks.len(),
            states[j].state == HandlerState::Open,
            states[j].last_heartbeat == h,
            states[j].config == states[0].config,
            forall|k: int| 0 <= k < j ==> #[trigger] ticks[k] <= h + states[0].config.client_timeout,
        ensures
            exists|k: int|
                0 <= k < ticks.len() && (#[trigger] states[k + 1]).state == HandlerState::Closing
                    && ticks[k] <= h + states[0].config.client_timeout
                    + states[0].config.probe_interval,
        decreases ticks.len() - j,
    {
        let cfg = states[0].config;
        assert(Self::tick_transition(states[j], states[j + 1], ticks[j]));
        if ticks[j] > h + cfg.client_timeout {
            assert(elapsed_since(ticks[j], h) > cfg.client_timeout);
            assert(states[j + 1].state == HandlerState::Closing);
            if j == 0 {
                assert(ticks[0] <= h + cfg.probe_interval);
            } else {
                assert(ticks[j - 1] <= h + cfg.client_timeout);
                assert(ticks[j] <= ticks[j - 1] + cfg.probe_interval);
            }
            assert(0 <= j < ticks.len() && (states[j + 1]).state == HandlerState::Closing
                && ticks[j] <= h + cfg.client_timeout + cfg.probe_interval);
        } else {
            assert(elapsed_since(ticks[j], h) <= cfg.client_timeout);
            assert(states[j + 1].state == HandlerState::Open);
            assert(states[j + 1].last_heartbeat == h);
            assert(j + 1 < ticks.len()) by {
                if j + 1 == ticks.len() {
                    assert(ticks.last() == ticks[j]);
                }
            }
            Self::lemma_timeout_run(states, ticks, h, j + 1);
        }
    }

    /// Law: a connection whose client stops responding to liveness probes is
    /// closed within `2 * probe_interval + timeout_margin` of its last
    /// heartbeat, where `timeout_margin == client_timeout - probe_interval`
    /// (equivalently: by the first tick after the timeout, which comes at
    /// most one probe interval late). The hypotheses say that the handler is
    /// open with its heartbeat at `h`, that timer ticks arrive at most one
    /// probe interval apart starting within one interval of `h`, that the
    /// client stays silent (every step is a tick), and that the run lasts
    /// past the timeout window.
    pub proof fn lemma_silent_client_times_out(
        states: Seq<ConnectionHandler>,
        ticks: Seq<u64>,
        h: u64,
    )
        requires
            states.len() == ticks.len() + 1,
            ticks.len() > 0,
            states[0].state == HandlerState::Open,
            states[0].last_heartbeat == h,
            states[0].config.wf(),
            forall|k: int|
                0 <= k < ticks.len() - 1 ==> (#[trigger] ticks[k]) <= ticks[k + 1] && ticks[k
                    + 1] <= ticks[k] + states[0].config.probe_interval,
            h <= ticks[0],
            ticks[0] <= h + states[0].config.probe_interval,
            forall|k: int|
                0 <= k < ticks.len() ==> Self::tick_transition(
                    #[trigger] states[k],
                    states[k + 1],
                    ticks[k],
                ),
            ticks.last() > h + states[0].config.client_timeout,
        ensures
            exists|k: int|
                0 <= k < ticks.len() && (#[trigger] states[k + 1]).state == HandlerState::Closing
                    && ticks[k] <= h + 2 * states[0].config.probe_interval + (
                states[0].config.client_timeout - states[0].config.probe_interval),
    {
        Self::lemma_timeout_run(states, ticks, h, 0);
        let k = choose|k: int|
            0 <= k < ticks.len() && (#[trigger] states[k + 1]).state == HandlerState::Closing
                && ticks[k] <= h + states[0].config.client_timeout
                + states[0].config.probe_interval;
        assert(ticks[k] <= h + 2 * states[0].config.probe_interval + (
        states[0].config.client_timeout - states[0].config.probe_interval));
    }

    /// The connection was unregistered and the transport released: the
    /// terminal state.
    pub fn complete_close(&mut self)
        requires
            old(self).state == HandlerState::Closing,
        ensures
            final(self).state == HandlerState::Closed,
            final(self).conn_id == old(self).conn_id,
            final(self).session_token == old(self).session_token,
            final(self).config == old(self).config,
    {
        self.state = HandlerState::Closed;
    }
}

} // verus!
