//! Per-connection liveness control.
//!
//! Each live connection runs `Connecting → Active → Closing → Closed`. The
//! shell owns the socket and the timers; this state machine owns the
//! decisions. Every stimulus — a frame from the client, a queued payload
//! from the hub, a heartbeat tick — is fed through [`ConnCtrl::step`],
//! which returns the actions the shell must perform. A connection whose
//! last ping/pong activity lies further back than the client timeout is
//! closed on the next tick, and every path into `Closing` carries exactly
//! one `NotifyDisconnect`, so membership is always released.
use vstd::prelude::*;

verus! {

/// Milliseconds between heartbeat pings.
pub const HEARTBEAT_INTERVAL_MS: u64 = 5000;

/// Milliseconds of silence after which a connection is considered dead.
/// Kept well above four heartbeat intervals to tolerate jitter.
pub const CLIENT_TIMEOUT_MS: u64 = 30000;

/// Lifecycle phase of one connection.
pub enum ConnPhase {
    Connecting,
    Active,
    Closing,
    Closed,
}

/// A stimulus for one connection.
pub enum ConnEvent {
    /// The `Connect` round-trip with the hub completed.
    Registered,
    /// Ping frame from the client (the shell echoes the payload).
    PingFrame,
    /// Pong frame from the client.
    PongFrame,
    /// Unexpected text frame; logged and ignored.
    TextFrame,
    /// Unexpected binary frame; logged and ignored.
    BinaryFrame,
    /// Close frame from the client.
    CloseFrame,
    /// The client stream reported an error.
    StreamError,
    /// The client stream ended.
    StreamEnd,
    /// A serialized event queued by the hub for this connection.
    ChannelMsg(Vec<u8>),
    /// The periodic heartbeat timer fired.
    HeartbeatTick,
    /// The close handshake finished.
    SocketClosed,
}

/// An action the shell must perform after a step.
pub enum ConnAction {
    SendPong,
    SendText(Vec<u8>),
    SendPing,
    NotifyDisconnect,
    CloseSocket,
}

/// Decision state of one connection: its phase and the time of the last
/// observed ping/pong activity, in milliseconds of a monotonic clock.
pub struct ConnCtrl {
    pub phase: ConnPhase,
    pub last_heartbeat: u64,
}

impl ConnCtrl {
    /// The transition function: next state and emitted actions for one
    /// stimulus observed at time `now_ms`.
    pub open spec fn spec_step(self, ev: ConnEvent, now_ms: u64) -> (ConnCtrl, Seq<ConnAction>) {
        match self.phase {
            ConnPhase::Connecting => match ev {
                ConnEvent::Registered => (
                    ConnCtrl { phase: ConnPhase::Active, last_heartbeat: now_ms },
                    Seq::empty(),
                ),
                _ => (self, Seq::empty()),
            },
            ConnPhase::Active => match ev {
                ConnEvent::Registered => (self, Seq::empty()),
                ConnEvent::PingFrame => (
                    ConnCtrl { phase: ConnPhase::Active, last_heartbeat: now_ms },
                    seq![ConnAction::SendPong],
                ),
                ConnEvent::PongFrame => (
                    ConnCtrl { phase: ConnPhase::Active, last_heartbeat: now_ms },
                    Seq::empty(),
                ),
                ConnEvent::TextFrame => (self, Seq::empty()),
                ConnEvent::BinaryFrame => (self, Seq::empty()),
                ConnEvent::CloseFrame | ConnEvent::StreamError | ConnEvent::StreamEnd => (
                    ConnCtrl { phase: ConnPhase::Closing, ..self },
                    seq![ConnAction::NotifyDisconnect, ConnAction::CloseSocket],
                ),
                ConnEvent::ChannelMsg(m) => (self, seq![ConnAction::SendText(m)]),
                ConnEvent::HeartbeatTick => {
                    if now_ms > self.last_heartbeat && now_ms - self.last_heartbeat
                        > CLIENT_TIMEOUT_MS {
                        (
                            ConnCtrl { phase: ConnPhase::Closing, ..self },
                            seq![ConnAction::NotifyDisconnect, ConnAction::CloseSocket],
                        )
                    } else {
                        (self, seq![ConnAction::SendPing])
                    }
                },
                ConnEvent::SocketClosed => (self, Seq::empty()),
            },
            ConnPhase::Closing => match ev {
                ConnEvent::SocketClosed => (
                    ConnCtrl { phase: ConnPhase::Closed, ..self },
                    Seq::empty(),
                ),
                _ => (self, Seq::empty()),
            },
            ConnPhase::Closed => (self, Seq::empty()),
        }
    }

    /// A fresh connection awaiting its registration round-trip.
    pub fn new() -> (r: Self)
        ensures
            r.phase is Connecting,
            r.last_heartbeat == 0,
    {
        ConnCtrl { phase: ConnPhase::Connecting, last_heartbeat: 0 }
    }

    /// Feeds one stimulus through the transition function.
    pub fn step(&mut self, ev: ConnEvent, now_ms: u64) -> (actions: Vec<ConnAction>)
        ensures
            *final(self) == old(self).spec_step(ev, now_ms).0,
            actions@ == old(self).spec_step(ev, now_ms).1,
    {
        let mut out: Vec<ConnAction> = Vec::new();
        match self.phase {
            ConnPhase::Connecting => {
                if let ConnEvent::Registered = ev {
                    self.phase = ConnPhase::Active;
                    self.last_heartbeat = now_ms;
                }
            },
            ConnPhase::Active => match ev {
                ConnEvent::Registered => {},
                ConnEvent::PingFrame => {
                    self.last_heartbeat = now_ms;
                    out.push(ConnAction::SendPong);
                },
                ConnEvent::PongFrame => {
                    self.last_heartbeat = now_ms;
                },
                ConnEvent::TextFrame => {},
                ConnEvent::BinaryFrame => {},
                ConnEvent::CloseFrame | ConnEvent::StreamError | ConnEvent::StreamEnd => {
                    self.phase = ConnPhase::Closing;
                    out.push(ConnAction::NotifyDisconnect);
                    out.push(ConnAction::CloseSocket);
                },
                ConnEvent::ChannelMsg(m) => {
                    out.push(ConnAction::SendText(m));
                },
                ConnEvent::HeartbeatTick => {
                    if now_ms > self.last_heartbeat && now_ms - self.last_heartbeat
                        > CLIENT_TIMEOUT_MS {
                        self.phase = ConnPhase::Closing;
                        out.push(ConnAction::NotifyDisconnect);
                        out.push(ConnAction::CloseSocket);
                    } else {
                        out.push(ConnAction::SendPing);
                    }
                },
                ConnEvent::SocketClosed => {},
            },
            ConnPhase::Closing => {
                if let ConnEvent::SocketClosed = ev {
                    self.phase = ConnPhase::Closed;
                }
            },
            ConnPhase::Closed => {},
        }
        proof {
            assert(out@ =~= old(self).spec_step(ev, now_ms).1);
        }
        out
    }
}

/// Folds a whole stimulus sequence through the transition function,
/// concatenating the emitted actions.
pub open spec fn spec_run(c: ConnCtrl, evs: Seq<(ConnEvent, u64)>) -> (ConnCtrl, Seq<ConnAction>)
    decreases evs.len(),
{
    if evs.len() == 0 {
        (c, Seq::empty())
    } else {
        let first = c.spec_step(evs[0].0, evs[0].1);
        let rest = spec_run(first.0, evs.drop_first());
        (rest.0, first.1 + rest.1)
    }
}

/// How many `NotifyDisconnect` actions a sequence holds.
pub open spec fn disconnect_count(acts: Seq<ConnAction>) -> nat
    decreases acts.len(),
{
    if acts.len() == 0 {
        0
    } else {
        (if acts[0] is NotifyDisconnect {
            1nat
        } else {
            0nat
        }) + disconnect_count(acts.drop_first())
    }
}

proof fn lemma_disconnect_count_append(a: Seq<ConnAction>, b: Seq<ConnAction>)
    ensures
        disconnect_count(a + b) == disconnect_count(a) + disconnect_count(b),
    decreases a.len(),
{
    if a.len() == 0 {
        assert(a + b =~= b);
    } else {
        assert((a + b).drop_first() =~= a.drop_first() + b);
        lemma_disconnect_count_append(a.drop_first(), b);
    }
}

proof fn lemma_count_one(x: ConnAction)
    ensures
        disconnect_count(seq![x]) == (if x is NotifyDisconnect {
            1nat
        } else {
            0nat
        }),
{
    assert(disconnect_count(Seq::<ConnAction>::empty()) == 0);
    assert(seq![x].drop_first() =~= Seq::<ConnAction>::empty());
    assert(seq![x][0] == x);
}

proof fn lemma_count_two(x: ConnAction, y: ConnAction)
    ensures
        disconnect_count(seq![x, y]) == (if x is NotifyDisconnect {
            1nat
        } else {
            0nat
        }) + (if y is NotifyDisconnect {
            1nat
        } else {
            0nat
        }),
{
    assert(seq![x, y].drop_first() =~= seq![y]);
    lemma_count_one(y);
}

/// One step of an active connection announces a disconnect exactly when it
/// leaves the active phase.
proof fn lemma_step_count(c: ConnCtrl, ev: ConnEvent, now_ms: u64)
    requires
        c.phase is Active,
    ensures
        ({
            let r = c.spec_step(ev, now_ms);
            disconnect_count(r.1) == (if r.0.phase is Active {
                0nat
            } else {
                1nat
            })
        }),
{
    match ev {
        ConnEvent::Registered => {},
        ConnEvent::PingFrame => {
            lemma_count_one(ConnAction::SendPong);
        },
        ConnEvent::PongFrame => {},
        ConnEvent::TextFrame => {},
        ConnEvent::BinaryFrame => {},
        ConnEvent::CloseFrame | ConnEvent::StreamError | ConnEvent::StreamEnd => {
            lemma_count_two(ConnAction::NotifyDisconnect, ConnAction::CloseSocket);
        },
        ConnEvent::ChannelMsg(m) => {
            lemma_count_one(ConnAction::SendText(m));
        },
        ConnEvent::HeartbeatTick => {
            if now_ms > c.last_heartbeat && now_ms - c.last_heartbeat > CLIENT_TIMEOUT_MS {
                lemma_count_two(ConnAction::NotifyDisconnect, ConnAction::CloseSocket);
            } else {
                lemma_count_one(ConnAction::SendPing);
            }
        },
        ConnEvent::SocketClosed => {},
    }
}

/// Once a connection is closing or closed, no further stimulus revives it
/// or makes it announce another disconnect.
proof fn lemma_closing_stays(c: ConnCtrl, evs: Seq<(ConnEvent, u64)>)
    requires
        c.phase is Closing || c.phase is Closed,
    ensures
        ({
            let r = spec_run(c, evs);
            &&& r.0.phase is Closing || r.0.phase is Closed
            &&& disconnect_count(r.1) == 0
        }),
    decreases evs.len(),
{
    if evs.len() > 0 {
        let first = c.spec_step(evs[0].0, evs[0].1);
        lemma_closing_stays(first.0, evs.drop_first());
        lemma_disconnect_count_append(first.1, spec_run(first.0, evs.drop_first()).1);
    }
}

/// Disconnect exactly once: however an active connection's life continues,
/// the emitted actions carry no `NotifyDisconnect` while it stays active
/// and exactly one once it has left the active phase. Membership is thus
/// released on every path out, and never twice.
pub proof fn lemma_disconnect_once(c: ConnCtrl, evs: Seq<(ConnEvent, u64)>)
    requires
        c.phase is Active,
    ensures
        ({
            let r = spec_run(c, evs);
            disconnect_count(r.1) == (if r.0.phase is Active {
                0nat
            } else {
                1nat
            })
        }),
    decreases evs.len(),
{
    if evs.len() > 0 {
        let first = c.spec_step(evs[0].0, evs[0].1);
        let rest = spec_run(first.0, evs.drop_first());
        lemma_disconnect_count_append(first.1, rest.1);
        lemma_step_count(c, evs[0].0, evs[0].1);
        if first.0.phase is Active {
            lemma_disconnect_once(first.0, evs.drop_first());
        } else {
            lemma_closing_stays(first.0, evs.drop_first());
        }
    }
}

/// Heartbeat eviction: an active connection whose last observed activity
/// lies more than the client timeout in the past is closed by the very next
/// heartbeat tick, announcing its disconnect.
pub proof fn lemma_heartbeat_eviction(c: ConnCtrl, now_ms: u64)
    requires
        c.phase is Active,
        now_ms > c.last_heartbeat + CLIENT_TIMEOUT_MS,
    ensures
        ({
            let r = c.spec_step(ConnEvent::HeartbeatTick, now_ms);
            &&& r.0.phase is Closing
            &&& r.1 == seq![ConnAction::NotifyDisconnect, ConnAction::CloseSocket]
        }),
{
}

} // verus!
