//! The per-connection sniffing state machine.
//!
//! The caller waits for the deadline or for readable bytes, reads, and hands
//! each outcome to `Sniffer::on_event`; the sniffer keeps every byte and says
//! whether to go on, where to route, or that the connection failed.

use vstd::prelude::*;
use vstd::utf8::encode_utf8;
use crate::header::{classify, lemma_empty_is_pending, lemma_pending_is_bounded, verdict_of};
use crate::header::{value_text, SniffError, Verdict, VerdictView};
use crate::text::is_run_of;

verus! {

/// The most bytes that one read takes from the connection.
pub const CHUNK_SIZE: usize = 1024;

/// What a connection is sniffed with.
#[derive(Debug, Clone, PartialEq, Eq)]
pub struct Config {
    /// The destination used when the bytes name none.
    pub default_addr: String,
    /// The header name, matched without regard to ASCII case.
    pub header: String,
    /// The number of bytes that may be held while no marker has come.
    pub lookahead_size: usize,
    /// The sniffing deadline in milliseconds.
    pub timeout_ms: u64,
}

impl Config {
    /// The bytes of the header name.
    pub open spec fn token(&self) -> Seq<u8> {
        encode_utf8(self.header@)
    }
}

impl Default for Config {
    fn default() -> (r: Config)
        ensures
            r.default_addr@ == "127.0.0.1:3001"@,
            r.header@ == "tcp_forward"@,
            r.lookahead_size == 16000,
            r.timeout_ms == 10000,
    {
        Config {
            default_addr: "127.0.0.1:3001".to_owned(),
            header: "tcp_forward".to_owned(),
            lookahead_size: 16000,
            timeout_ms: 10000,
        }
    }
}

/// What happened while the sniffer waited.
#[derive(Debug, Clone, PartialEq, Eq)]
pub enum Event {
    /// The deadline elapsed.
    Deadline,
    /// A read returned these bytes.
    Data(Vec<u8>),
    /// The read would have blocked: a spurious wake-up.
    WouldBlock,
    /// The read failed.
    ReadFailed,
}

/// The mathematical form of an `Event`.
pub enum EventView {
    Deadline,
    Data(Seq<u8>),
    WouldBlock,
    ReadFailed,
}

impl View for Event {
    type V = EventView;

    open spec fn view(&self) -> EventView {
        match self {
            Event::Deadline => EventView::Deadline,
            Event::Data(chunk) => EventView::Data(chunk@),
            Event::WouldBlock => EventView::WouldBlock,
            Event::ReadFailed => EventView::ReadFailed,
        }
    }
}

/// Where a connection goes, and the bytes that were read to find out.
#[derive(Debug, Clone, PartialEq, Eq)]
pub struct RoutingDecision {
    /// The address to connect to.
    pub destination: String,
    /// Every byte read from the connection, in the order read.
    pub consumed: Vec<u8>,
    /// Whether the header named the destination.
    pub explicit: bool,
}

/// The outcome of one event.
pub enum Step {
    /// Nothing is decided: wait for the next event.
    Continue(Sniffer),
    /// The destination is decided.
    Decided(RoutingDecision),
    /// The connection failed.
    Failed(SniffError),
}

/// The mathematical form of a `Step`.
pub enum StepView {
    Continue(Seq<u8>),
    Decided { destination: Seq<char>, consumed: Seq<u8>, explicit: bool },
    Failed(SniffError),
}

impl View for Step {
    type V = StepView;

    open spec fn view(&self) -> StepView {
        match self {
            Step::Continue(s) => StepView::Continue(s.buffer()),
            Step::Decided(d) => StepView::Decided {
                destination: d.destination@,
                consumed: d.consumed@,
                explicit: d.explicit,
            },
            Step::Failed(e) => StepView::Failed(*e),
        }
    }
}

/// The step that a verdict on `buffer` leads to.
pub open spec fn settle(verdict: VerdictView, default_addr: Seq<char>, buffer: Seq<u8>)
    -> StepView {
    match verdict {
        VerdictView::Pending => StepView::Continue(buffer),
        VerdictView::Fallback => StepView::Decided {
            destination: default_addr,
            consumed: buffer,
            explicit: false,
        },
        VerdictView::Explicit(destination) => StepView::Decided {
            destination,
            consumed: buffer,
            explicit: true,
        },
        VerdictView::Failed(e) => StepView::Failed(e),
    }
}

/// The step that `event` leads to from a sniffer that holds `buffer`.
///
/// The deadline routes to the default with what is held. Data is appended and
/// the whole buffer classified anew. A read that would block changes nothing.
pub open spec fn step_of(
    default_addr: Seq<char>,
    token: Seq<u8>,
    ceiling: int,
    buffer: Seq<u8>,
    event: EventView,
) -> StepView {
    match event {
        EventView::Deadline => StepView::Decided {
            destination: default_addr,
            consumed: buffer,
            explicit: false,
        },
        EventView::Data(chunk) => settle(
            verdict_of(buffer + chunk, token, ceiling),
            default_addr,
            buffer + chunk,
        ),
        EventView::WouldBlock => StepView::Continue(buffer),
        EventView::ReadFailed => StepView::Failed(SniffError::ReadFailed),
    }
}

/// The bytes that a run of events brought, in their order.
pub open spec fn bytes_of(events: Seq<EventView>) -> Seq<u8>
    decreases events.len(),
{
    if events.len() == 0 {
        Seq::empty()
    } else {
        bytes_of(events.drop_last()) + match events.last() {
            EventView::Data(chunk) => chunk,
            _ => Seq::empty(),
        }
    }
}

/// Where a run of events leads from a sniffer that holds `buffer`: each event
/// is taken in turn until one decides or fails.
pub open spec fn run_of(
    default_addr: Seq<char>,
    token: Seq<u8>,
    ceiling: int,
    buffer: Seq<u8>,
    events: Seq<EventView>,
) -> StepView
    decreases events.len(),
{
    if events.len() == 0 {
        StepView::Continue(buffer)
    } else {
        match run_of(default_addr, token, ceiling, buffer, events.drop_last()) {
            StepView::Continue(held) => step_of(default_addr, token, ceiling, held, events.last()),
            done => done,
        }
    }
}

/// The sniffing state of one connection: its configuration and every byte read
/// so far. While a sniffer exists nothing is decided: its buffer holds no
/// marker and no more bytes than the ceiling.
pub struct Sniffer {
    config: Config,
    buffer: Vec<u8>,
}

impl Sniffer {
    #[verifier::type_invariant]
    spec fn undecided(self) -> bool {
        verdict_of(self.buffer@, self.config.token(), self.config.lookahead_size as int)
            == VerdictView::Pending
    }

    /// The configuration the sniffer was made with.
    pub closed spec fn config(&self) -> Config {
        self.config
    }

    /// The bytes read so far.
    pub closed spec fn buffer(&self) -> Seq<u8> {
        self.buffer@
    }

    /// A sniffer for a newly accepted connection: no byte read yet.
    pub fn new(config: Config) -> (r: Sniffer)
        ensures
            r.config() == config,
            r.buffer() == Seq::<u8>::empty(),
    {
        let buffer: Vec<u8> = Vec::new();
        proof {
            lemma_empty_is_pending(config.token(), config.lookahead_size as int);
        }
        Sniffer { config, buffer }
    }

    /// The bytes read so far: undecided, as they are in every sniffer.
    pub fn buffered(&self) -> (r: &[u8])
        ensures
            r@ == self.buffer(),
            verdict_of(r@, self.config().token(), self.config().lookahead_size as int)
                == VerdictView::Pending,
    {
        proof {
            use_type_invariant(self);
        }
        self.buffer.as_slice()
    }

    /// Takes one event and says how the connection goes on.
    ///
    /// The outcome is `step_of` on the sniffer's state and the event. A sniffer
    /// that continues keeps its configuration. Whatever is decided, the bytes
    /// handed on are all the bytes read, and they pass the ceiling by no more
    /// than the last read. A destination that the header names is a stretch of
    /// the value's text as it came.
    pub fn on_event(self, event: Event) -> (r: Step)
        ensures
            r@ == step_of(
                self.config().default_addr@,
                self.config().token(),
                self.config().lookahead_size as int,
                self.buffer(),
                event@,
            ),
            r matches Step::Continue(next) ==> next.config() == self.config(),
            r matches Step::Decided(d) ==> event matches Event::Data(chunk) ==> d.consumed@.len()
                <= self.config().lookahead_size + chunk@.len(),
            r matches Step::Decided(d) ==> d.explicit ==> is_run_of(
                d.destination@,
                value_text(d.consumed@, self.config().token()),
            ),
    {
        proof {
            use_type_invariant(&self);
            lemma_pending_is_bounded(
                self.buffer@,
                self.config.token(),
                self.config.lookahead_size as int,
            );
        }
        let Sniffer { config, buffer } = self;
        match event {
            Event::Deadline => Step::Decided(
                RoutingDecision {
                    destination: config.default_addr.clone(),
                    consumed: buffer,
                    explicit: false,
                },
            ),
            Event::WouldBlock => Step::Continue(Sniffer { config, buffer }),
            Event::ReadFailed => Step::Failed(SniffError::ReadFailed),
            Event::Data(chunk) => {
                let mut buffer = buffer;
                let mut chunk = chunk;
                buffer.append(&mut chunk);
                let verdict = classify(
                    buffer.as_slice(),
                    config.header.as_str().as_bytes(),
                    config.lookahead_size,
                );
                match verdict {
                    Verdict::Pending => Step::Continue(Sniffer { config, buffer }),
                    Verdict::Fallback => Step::Decided(
                        RoutingDecision {
                            destination: config.default_addr.clone(),
                            consumed: buffer,
                            explicit: false,
                        },
                    ),
                    Verdict::Explicit(destination) => Step::Decided(
                        RoutingDecision { destination, consumed: buffer, explicit: true },
                    ),
                    Verdict::Failed(e) => Step::Failed(e),
                }
            },
        }
    }
}

} // verus!
