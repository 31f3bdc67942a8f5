//! What holds of the routing rule and the state machines, for all inputs.

use vstd::prelude::*;
use vstd::utf8::valid_utf8;
use crate::header::{header_needle, header_verdict, line_end, marker, value_end, value_start};
use crate::header::{lemma_header_verdict_decides, lemma_pending_is_bounded, verdict_of};
use crate::header::{SniffError, VerdictView};
use crate::relay::{opposite, relay_step};
use crate::relay::{Direction, Flow, Phase, RelayActionView, RelayEvent, RelayView};
use crate::search::{first_occurrence, is_first_occurrence, lower, occurs_at};
use crate::search::{lemma_first_occurrence_some, lemma_first_occurrence_sound};
use crate::sniffer::{bytes_of, run_of, step_of};
use crate::sniffer::{Config, Event, EventView, StepView};

verus! {

/// More bytes behind a marker change nothing: once a buffer holds the marker,
/// its verdict is that of every longer buffer, wherever later reads end.
pub proof fn lemma_verdict_stable(buf: Seq<u8>, more: Seq<u8>, token: Seq<u8>, ceiling: int)
    requires
        first_occurrence(buf, marker()) is Some,
    ensures
        first_occurrence(buf + more, marker()) == first_occurrence(buf, marker()),
        verdict_of(buf + more, token, ceiling) == verdict_of(buf, token, ceiling),
{
    let all = buf + more;
    lemma_first_occurrence_sound(buf, marker());
    let at = first_occurrence(buf, marker())->0;
    assert(is_first_occurrence(all, marker(), at)) by {
        assert(all.subrange(at, at + 4) =~= buf.subrange(at, at + 4));
        assert forall|p: int| 0 <= p < at implies !occurs_at(all, marker(), p) by {
            assert(all.subrange(p, p + 4) =~= buf.subrange(p, p + 4));
            assert(!occurs_at(buf, marker(), p));
        }
    }
    lemma_first_occurrence_some(all, marker(), at);
    assert(all.subrange(0, at + 4) =~= buf.subrange(0, at + 4));
    assert(all.subrange(0, at) =~= buf.subrange(0, at));
    match value_start(buf, token, at) {
        None => {},
        Some(start) => {
            lemma_first_occurrence_sound(lower(buf.subrange(0, at)), header_needle(token));
            assert(all.subrange(start, at + 4) =~= buf.subrange(start, at + 4));
            match value_end(buf, at, start) {
                None => {},
                Some(end) => {
                    lemma_first_occurrence_sound(buf.subrange(start, at + 4), line_end());
                    assert(all.subrange(start, end) =~= buf.subrange(start, end));
                },
            }
        },
    }
}

/// The value of a header that stands before a marker always ends: at the
/// latest the marker's own first half ends it. So a block that ends with a
/// marker fails for one reason only, that it is not well-formed text.
pub proof fn lemma_value_ends_at_marker(buf: Seq<u8>, token: Seq<u8>, at: int)
    requires
        occurs_at(buf, marker(), at),
    ensures
        value_start(buf, token, at) matches Some(start) ==> start <= at && value_end(
            buf,
            at,
            start,
        ) is Some,
        header_verdict(buf, token, at) != VerdictView::Failed(SniffError::UnterminatedValue),
        header_verdict(buf, token, at) is Failed <==> !valid_utf8(buf.subrange(0, at + 4)),
{
    match value_start(buf, token, at) {
        None => {},
        Some(start) => {
            lemma_first_occurrence_sound(lower(buf.subrange(0, at)), header_needle(token));
            let rest = buf.subrange(start, at + 4);
            assert(rest.subrange(at - start, at - start + 2) =~= line_end()) by {
                let found = buf.subrange(at, at + 4);
                assert(found == marker());
                assert(found[0] == buf[at] && found[1] == buf[at + 1]);
            }
            assert(occurs_at(rest, line_end(), at - start));
            lemma_first_occurrence_sound(rest, line_end());
        },
    }
}

/// Two header names that differ in ASCII case only give the same verdict on
/// every buffer.
pub proof fn lemma_token_case_is_ignored(
    buf: Seq<u8>,
    token: Seq<u8>,
    other: Seq<u8>,
    ceiling: int,
)
    requires
        lower(token) == lower(other),
    ensures
        verdict_of(buf, token, ceiling) == verdict_of(buf, other, ceiling),
{
}

/// The header is found whatever its case, and the value is taken as it came.
/// Two header blocks that are both text, differ before the marker only in the
/// ASCII case of their bytes and are equal from the value on are judged alike.
pub proof fn lemma_inbound_case_is_ignored(
    buf: Seq<u8>,
    other: Seq<u8>,
    token: Seq<u8>,
    at: int,
)
    requires
        0 <= at,
        at + 4 <= buf.len(),
        at + 4 <= other.len(),
        valid_utf8(buf.subrange(0, at + 4)) == valid_utf8(other.subrange(0, at + 4)),
        lower(buf.subrange(0, at)) == lower(other.subrange(0, at)),
        value_start(buf, token, at) matches Some(start) ==> buf.subrange(start, at + 4)
            == other.subrange(start, at + 4),
    ensures
        value_start(buf, token, at) == value_start(other, token, at),
        header_verdict(buf, token, at) == header_verdict(other, token, at),
{
    match value_start(buf, token, at) {
        None => {},
        Some(start) => {
            lemma_first_occurrence_sound(lower(buf.subrange(0, at)), header_needle(token));
            assert(buf.subrange(0, at).len() == other.subrange(0, at).len()) by {
                assert(lower(buf.subrange(0, at)).len() == lower(other.subrange(0, at)).len());
            }
            match value_end(buf, at, start) {
                None => {},
                Some(end) => {
                    lemma_first_occurrence_sound(buf.subrange(start, at + 4), line_end());
                    assert(buf.subrange(start, end) =~= buf.subrange(start, at + 4).subrange(
                        0,
                        end - start,
                    ));
                    assert(other.subrange(start, end) =~= other.subrange(start, at + 4).subrange(
                        0,
                        end - start,
                    ));
                },
            }
        },
    }
}

/// The outcome of an event depends on nothing but the configuration's values,
/// the bytes held and the event's content.
pub proof fn lemma_step_is_determined(
    a: Config,
    b: Config,
    buffer: Seq<u8>,
    event: Event,
    again: Event,
)
    requires
        a.default_addr@ == b.default_addr@,
        a.header@ == b.header@,
        a.lookahead_size == b.lookahead_size,
        event@ == again@,
    ensures
        step_of(a.default_addr@, a.token(), a.lookahead_size as int, buffer, event@) == step_of(
            b.default_addr@,
            b.token(),
            b.lookahead_size as int,
            buffer,
            again@,
        ),
{
}

/// When the deadline elapses the default destination is chosen and every byte
/// held is handed on: none, where none was read.
pub proof fn lemma_deadline_falls_back(
    default_addr: Seq<char>,
    token: Seq<u8>,
    ceiling: int,
    buffer: Seq<u8>,
)
    ensures
        step_of(default_addr, token, ceiling, buffer, EventView::Deadline) == (StepView::Decided {
            destination: default_addr,
            consumed: buffer,
            explicit: false,
        }),
        step_of(default_addr, token, ceiling, Seq::empty(), EventView::Deadline)
            == (StepView::Decided {
            destination: default_addr,
            consumed: Seq::empty(),
            explicit: false,
        }),
{
}

/// When a read takes the buffer over the ceiling and no marker has come, the
/// default destination is chosen and exactly the bytes read are handed on; from
/// a pending buffer they pass the ceiling by no more than that read.
pub proof fn lemma_ceiling_falls_back(
    default_addr: Seq<char>,
    token: Seq<u8>,
    ceiling: int,
    buffer: Seq<u8>,
    chunk: Seq<u8>,
)
    requires
        first_occurrence(buffer + chunk, marker()) is None,
        (buffer + chunk).len() > ceiling,
    ensures
        step_of(default_addr, token, ceiling, buffer, EventView::Data(chunk))
            == (StepView::Decided {
            destination: default_addr,
            consumed: buffer + chunk,
            explicit: false,
        }),
        verdict_of(buffer, token, ceiling) == VerdictView::Pending ==> (buffer + chunk).len()
            <= ceiling + chunk.len(),
{
    if verdict_of(buffer, token, ceiling) == VerdictView::Pending {
        lemma_pending_is_bounded(buffer, token, ceiling);
    }
}

/// A marker is found wherever the reads were cut: when the bytes held and the
/// bytes read together hold a marker, however it lies across the two, the
/// sniffer waits no longer.
pub proof fn lemma_split_marker_is_found(
    default_addr: Seq<char>,
    token: Seq<u8>,
    ceiling: int,
    buffer: Seq<u8>,
    chunk: Seq<u8>,
    at: int,
)
    requires
        occurs_at(buffer + chunk, marker(), at),
    ensures
        first_occurrence(buffer + chunk, marker()) is Some,
        !(step_of(default_addr, token, ceiling, buffer, EventView::Data(chunk))
            is Continue),
{
    lemma_first_occurrence_sound(buffer + chunk, marker());
    lemma_header_verdict_decides(buffer + chunk, token);
}

/// No byte is lost, added or moved while sniffing: however the stream was cut
/// into reads, a sniffer that still waits holds exactly the bytes that came,
/// and a decision hands on exactly the bytes that came up to the event that
/// decided.
pub proof fn lemma_bytes_are_kept(
    default_addr: Seq<char>,
    token: Seq<u8>,
    ceiling: int,
    buffer: Seq<u8>,
    events: Seq<EventView>,
)
    ensures
        match run_of(default_addr, token, ceiling, buffer, events) {
            StepView::Continue(held) => held == buffer + bytes_of(events),
            StepView::Decided { consumed, .. } => exists|n: int|
                0 <= n <= events.len() && consumed == buffer + bytes_of(#[trigger] events.take(n)),
            StepView::Failed(_) => true,
        },
    decreases events.len(),
{
    if events.len() == 0 {
        assert(buffer + bytes_of(events) =~= buffer);
    } else {
        let before = events.drop_last();
        lemma_bytes_are_kept(default_addr, token, ceiling, buffer, before);
        match run_of(default_addr, token, ceiling, buffer, before) {
            StepView::Continue(held) => {
                let step = step_of(default_addr, token, ceiling, held, events.last());
                match step {
                    StepView::Continue(next) => {
                        assert(next =~= buffer + bytes_of(events));
                    },
                    StepView::Decided { consumed, .. } => {
                        if events.last() is Data {
                            assert(events.take(events.len() as int) =~= events);
                            assert(consumed =~= buffer + bytes_of(events));
                        } else {
                            assert(events.take(events.len() - 1) =~= before);
                        }
                    },
                    StepView::Failed(_) => {},
                }
            },
            StepView::Decided { consumed, .. } => {
                let n = choose|n: int|
                    0 <= n <= before.len() && consumed == buffer + bytes_of(
                        #[trigger] before.take(n),
                    );
                assert(events.take(n) =~= before.take(n));
            },
            StepView::Failed(_) => {},
        }
    }
}

/// Where the header names the destination, it is the one that the whole
/// stream names: however the stream was cut into reads, the decision is that
/// of classifying at once all the bytes that came, and what is handed on is
/// their beginning.
pub proof fn lemma_destination_ignores_cuts(
    default_addr: Seq<char>,
    token: Seq<u8>,
    ceiling: int,
    events: Seq<EventView>,
)
    ensures
        match run_of(default_addr, token, ceiling, Seq::empty(), events) {
            StepView::Decided { destination, consumed, explicit } => explicit ==> {
                &&& consumed.is_prefix_of(bytes_of(events))
                &&& verdict_of(consumed, token, ceiling) == VerdictView::Explicit(destination)
                &&& verdict_of(bytes_of(events), token, ceiling) == VerdictView::Explicit(
                    destination,
                )
            },
            _ => true,
        },
    decreases events.len(),
{
    let none = Seq::<u8>::empty();
    if events.len() > 0 {
        let before = events.drop_last();
        lemma_destination_ignores_cuts(default_addr, token, ceiling, before);
        lemma_bytes_are_kept(default_addr, token, ceiling, none, before);
        match run_of(default_addr, token, ceiling, none, events) {
            StepView::Decided { destination, consumed, explicit } => {
                if explicit {
                    let all = bytes_of(events);
                    if run_of(default_addr, token, ceiling, none, before) is Continue {
                        assert(none + bytes_of(before) =~= bytes_of(before));
                        assert(consumed =~= all);
                    }
                    assert(consumed.is_prefix_of(all));
                    let more = all.subrange(consumed.len() as int, all.len() as int);
                    assert(all =~= consumed + more);
                    assert(first_occurrence(consumed, marker()) is Some);
                    lemma_verdict_stable(consumed, more, token, ceiling);
                }
            },
            _ => {},
        }
    }
}

/// The sniffed bytes reach the upstream first and whole: the relay hands them
/// out when the connection is open and at no other time, and starts to copy
/// only when they are written.
pub proof fn lemma_replay_comes_first(s: RelayView, event: RelayEvent)
    ensures
        relay_step(s, event).1 matches RelayActionView::Replay(bytes) ==> s.phase
            == Phase::Connecting && event == RelayEvent::Connected && bytes == s.prefix,
        relay_step(s, event).1 == RelayActionView::Pump ==> s.phase == Phase::Replaying && event
            == RelayEvent::PrefixWritten,
        s.phase == Phase::Connecting && event == RelayEvent::Connected ==> relay_step(s, event).1
            == RelayActionView::Replay(s.prefix),
{
}

/// An end of stream is passed on as a half-close: while both directions run,
/// the end of one side's bytes has the other side's writing half shut down,
/// whichever side it is, and leaves the opposite direction as it was.
pub proof fn lemma_half_close_is_passed_on(s: RelayView, d: Direction)
    requires
        s.phase == Phase::Pumping,
        s.flow(d) == Flow::Copying,
    ensures
        relay_step(s, RelayEvent::SourceEnded(d)).1 == RelayActionView::Shutdown(d),
        relay_step(s, RelayEvent::SourceEnded(d)).0.phase == Phase::Pumping,
        relay_step(s, RelayEvent::SourceEnded(d)).0.flow(d) == Flow::Closing,
        relay_step(s, RelayEvent::SourceEnded(d)).0.flow(opposite(d)) == s.flow(opposite(d)),
{
}

/// The relay finishes when both directions are closed and not before: the
/// first to close waits for the other.
pub proof fn lemma_finish_needs_both(s: RelayView, event: RelayEvent)
    ensures
        relay_step(s, event).1 == RelayActionView::Finish ==> relay_step(s, event).0.to_upstream
            == Flow::Closed && relay_step(s, event).0.to_client == Flow::Closed,
        relay_step(s, event).0.phase == Phase::Finished && s.phase != Phase::Finished
            ==> relay_step(s, event).1 == RelayActionView::Finish,
{
}

/// A failure in either direction, at any time before the end, tears the
/// connection down.
pub proof fn lemma_failure_aborts(s: RelayView)
    requires
        s.phase != Phase::Finished,
        s.phase != Phase::Failed,
    ensures
        relay_step(s, RelayEvent::IoFailed).1 == RelayActionView::Abort,
        relay_step(s, RelayEvent::IoFailed).0.phase == Phase::Failed,
{
}

} // verus!
