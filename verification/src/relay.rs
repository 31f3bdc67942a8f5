//! The relay's state machine: connect, replay the sniffed bytes, then copy both
//! ways and pass each end of stream on as a half-close.
//!
//! The caller does the I/O. It hands each outcome to `Relay::on_event` and
//! performs the action that comes back.

use vstd::prelude::*;

verus! {

/// One of the two ways that bytes flow through the relay.
#[derive(Debug, Clone, Copy, PartialEq, Eq, Structural)]
pub enum Direction {
    /// Read from the client, written to the upstream.
    ToUpstream,
    /// Read from the upstream, written to the client.
    ToClient,
}

/// How far one direction has come.
#[derive(Debug, Clone, Copy, PartialEq, Eq, Structural)]
pub enum Flow {
    /// Bytes are copied.
    Copying,
    /// The reading side ended; the writing side is being shut down.
    Closing,
    /// The writing side is shut down.
    Closed,
}

/// How far the relay has come.
#[derive(Debug, Clone, Copy, PartialEq, Eq, Structural)]
pub enum Phase {
    /// The outbound connection is being opened.
    Connecting,
    /// The sniffed bytes are being written to the upstream.
    Replaying,
    /// Both directions run.
    Pumping,
    /// Both directions are closed.
    Finished,
    /// The connection failed.
    Failed,
}

/// What the caller reports to the relay.
#[derive(Debug, Clone, Copy, PartialEq, Eq, Structural)]
pub enum RelayEvent {
    /// The outbound connection is open.
    Connected,
    /// The sniffed bytes are written in full.
    PrefixWritten,
    /// The reading side of a direction reached its end, and all that was read
    /// is written and flushed.
    SourceEnded(Direction),
    /// The writing side of a direction is shut down.
    ShutdownDone(Direction),
    /// Connecting, writing, copying or shutting down failed.
    IoFailed,
}

/// What the caller is to do next.
#[derive(Debug, Clone, PartialEq, Eq)]
pub enum RelayAction {
    /// Write these bytes to the upstream, before anything else.
    Replay(Vec<u8>),
    /// Start copying in both directions.
    Pump,
    /// Shut down the writing side of this direction.
    Shutdown(Direction),
    /// Nothing new: go on with what runs.
    Wait,
    /// Both directions are closed: the connection is over.
    Finish,
    /// Tear the connection down.
    Abort,
}

/// The mathematical form of a `RelayAction`.
pub enum RelayActionView {
    Replay(Seq<u8>),
    Pump,
    Shutdown(Direction),
    Wait,
    Finish,
    Abort,
}

impl View for RelayAction {
    type V = RelayActionView;

    open spec fn view(&self) -> RelayActionView {
        match self {
            RelayAction::Replay(bytes) => RelayActionView::Replay(bytes@),
            RelayAction::Pump => RelayActionView::Pump,
            RelayAction::Shutdown(d) => RelayActionView::Shutdown(*d),
            RelayAction::Wait => RelayActionView::Wait,
            RelayAction::Finish => RelayActionView::Finish,
            RelayAction::Abort => RelayActionView::Abort,
        }
    }
}

/// The mathematical form of a `Relay`.
pub struct RelayView {
    pub phase: Phase,
    pub to_upstream: Flow,
    pub to_client: Flow,
    pub prefix: Seq<u8>,
}

impl RelayView {
    /// The flow of one direction.
    pub open spec fn flow(self, d: Direction) -> Flow {
        match d {
            Direction::ToUpstream => self.to_upstream,
            Direction::ToClient => self.to_client,
        }
    }

    /// This state with the flow of one direction replaced.
    pub open spec fn with_flow(self, d: Direction, flow: Flow) -> RelayView {
        match d {
            Direction::ToUpstream => RelayView { to_upstream: flow, ..self },
            Direction::ToClient => RelayView { to_client: flow, ..self },
        }
    }

    /// This state in another phase.
    pub open spec fn in_phase(self, phase: Phase) -> RelayView {
        RelayView { phase, ..self }
    }
}

/// The direction opposite to `d`.
pub open spec fn opposite(d: Direction) -> Direction {
    match d {
        Direction::ToUpstream => Direction::ToClient,
        Direction::ToClient => Direction::ToUpstream,
    }
}

/// The state and the action that `event` leads to from `s`.
///
/// A failure before the end aborts. Otherwise: connected, the sniffed bytes are
/// replayed; those written, both directions start; a direction whose source
/// ended has its writing side shut down; that done, the relay finishes if the
/// other direction is closed too, and waits for it if not. An event that does
/// not fit the state changes nothing.
pub open spec fn relay_step(s: RelayView, event: RelayEvent) -> (RelayView, RelayActionView) {
    if s.phase == Phase::Finished || s.phase == Phase::Failed {
        (s, RelayActionView::Wait)
    } else {
        match event {
            RelayEvent::IoFailed => (s.in_phase(Phase::Failed), RelayActionView::Abort),
            RelayEvent::Connected => if s.phase == Phase::Connecting {
                (
                    RelayView { phase: Phase::Replaying, prefix: Seq::empty(), ..s },
                    RelayActionView::Replay(s.prefix),
                )
            } else {
                (s, RelayActionView::Wait)
            },
            RelayEvent::PrefixWritten => if s.phase == Phase::Replaying {
                (s.in_phase(Phase::Pumping), RelayActionView::Pump)
            } else {
                (s, RelayActionView::Wait)
            },
            RelayEvent::SourceEnded(d) => if s.phase == Phase::Pumping && s.flow(d)
                == Flow::Copying {
                (s.with_flow(d, Flow::Closing), RelayActionView::Shutdown(d))
            } else {
                (s, RelayActionView::Wait)
            },
            RelayEvent::ShutdownDone(d) => if s.phase == Phase::Pumping && s.flow(d)
                == Flow::Closing {
                if s.flow(opposite(d)) == Flow::Closed {
                    (s.with_flow(d, Flow::Closed).in_phase(Phase::Finished), RelayActionView::Finish)
                } else {
                    (s.with_flow(d, Flow::Closed), RelayActionView::Wait)
                }
            } else {
                (s, RelayActionView::Wait)
            },
        }
    }
}

/// The relay state of one connection.
pub struct Relay {
    phase: Phase,
    to_upstream: Flow,
    to_client: Flow,
    prefix: Vec<u8>,
}

impl View for Relay {
    type V = RelayView;

    closed spec fn view(&self) -> RelayView {
        RelayView {
            phase: self.phase,
            to_upstream: self.to_upstream,
            to_client: self.to_client,
            prefix: self.prefix@,
        }
    }
}

impl Relay {
    /// A relay that is about to connect and holds the sniffed bytes.
    pub fn new(prefix: Vec<u8>) -> (r: Relay)
        ensures
            r@ == (RelayView {
                phase: Phase::Connecting,
                to_upstream: Flow::Copying,
                to_client: Flow::Copying,
                prefix: prefix@,
            }),
    {
        Relay { phase: Phase::Connecting, to_upstream: Flow::Copying, to_client: Flow::Copying, prefix }
    }

    /// How far the relay has come.
    pub fn phase(&self) -> (r: Phase)
        ensures
            r == self@.phase,
    {
        self.phase
    }

    /// How far one direction has come.
    pub fn flow(&self, d: Direction) -> (r: Flow)
        ensures
            r == self@.flow(d),
    {
        match d {
            Direction::ToUpstream => self.to_upstream,
            Direction::ToClient => self.to_client,
        }
    }

    /// Takes one event, moves to the next state and says what to do.
    pub fn on_event(&mut self, event: RelayEvent) -> (action: RelayAction)
        ensures
            (final(self)@, action@) == relay_step(old(self)@, event),
    {
        if self.phase == Phase::Finished || self.phase == Phase::Failed {
            return RelayAction::Wait;
        }
        match event {
            RelayEvent::IoFailed => {
                self.phase = Phase::Failed;
                RelayAction::Abort
            },
            RelayEvent::Connected => {
                if self.phase == Phase::Connecting {
                    let mut bytes: Vec<u8> = Vec::new();
                    bytes.append(&mut self.prefix);
                    self.phase = Phase::Replaying;
                    assert(bytes@ =~= old(self).prefix@);
                    RelayAction::Replay(bytes)
                } else {
                    RelayAction::Wait
                }
            },
            RelayEvent::PrefixWritten => {
                if self.phase == Phase::Replaying {
                    self.phase = Phase::Pumping;
                    RelayAction::Pump
                } else {
                    RelayAction::Wait
                }
            },
            RelayEvent::SourceEnded(d) => {
                if self.phase == Phase::Pumping && self.flow(d) == Flow::Copying {
                    self.set_flow(d, Flow::Closing);
                    RelayAction::Shutdown(d)
                } else {
                    RelayAction::Wait
                }
            },
            RelayEvent::ShutdownDone(d) => {
                if self.phase == Phase::Pumping && self.flow(d) == Flow::Closing {
                    self.set_flow(d, Flow::Closed);
                    let other = match d {
                        Direction::ToUpstream => Direction::ToClient,
                        Direction::ToClient => Direction::ToUpstream,
                    };
                    if self.flow(other) == Flow::Closed {
                        self.phase = Phase::Finished;
                        RelayAction::Finish
                    } else {
                        RelayAction::Wait
                    }
                } else {
                    RelayAction::Wait
                }
            },
        }
    }

    fn set_flow(&mut self, d: Direction, flow: Flow)
        ensures
            final(self)@ == old(self)@.with_flow(d, flow),
    {
        match d {
            Direction::ToUpstream => {
                self.to_upstream = flow;
            },
            Direction::ToClient => {
                self.to_client = flow;
            },
        }
    }
}

} // verus!
