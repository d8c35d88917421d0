//! The decoder of a multipart body: a state machine over the events that the
//! transport reports, producing the received parts in arrival order.

use vstd::prelude::*;

use crate::error::DecodeError;
use crate::part::{assembled, part_views, HeaderView, PartHeader, PartView, ReceivedPart};
use crate::payload::append_chunk;

verus! {

/// What the transport reports while a multipart body is read.
#[derive(Debug, Clone, PartialEq, Eq)]
pub enum Event {
    /// A new part begins; its header has been read.
    PartOpened(PartHeader),
    /// The next chunk of the open part's payload.
    Chunk(Vec<u8>),
    /// Reading the next chunk of the open part failed.
    ChunkFailed,
    /// The payload of the open part is complete.
    PartClosed,
    /// The body has no further parts.
    BodyEnded,
    /// Looking for the next part failed.
    BodyFailed,
}

/// The mathematical value of an [`Event`].
pub enum EventView {
    PartOpened(HeaderView),
    Chunk(Seq<u8>),
    ChunkFailed,
    PartClosed,
    BodyEnded,
    BodyFailed,
}

impl View for Event {
    type V = EventView;

    open spec fn view(&self) -> EventView {
        match *self {
            Event::PartOpened(header) => EventView::PartOpened(header@),
            Event::Chunk(bytes) => EventView::Chunk(bytes@),
            Event::ChunkFailed => EventView::ChunkFailed,
            Event::PartClosed => EventView::PartClosed,
            Event::BodyEnded => EventView::BodyEnded,
            Event::BodyFailed => EventView::BodyFailed,
        }
    }
}

/// The values of a list of events, in the same order.
pub open spec fn event_views(events: Seq<Event>) -> Seq<EventView> {
    Seq::new(events.len(), |i: int| events[i]@)
}

/// What the decoder needs next from the transport.
#[derive(Debug, Clone, Copy, PartialEq, Eq, Structural)]
pub enum Action {
    /// Look for the next part of the body.
    AwaitPart,
    /// Read the next chunk of the open part.
    AwaitChunk,
    /// Nothing: decoding is over.
    Finish,
}

/// The state of a decoder, as a mathematical value.
pub enum DecoderState {
    /// Between parts. `parts` are the parts completed so far.
    AwaitingPart { parts: Seq<PartView> },
    /// Inside a part, with `data` read of its payload so far.
    ReceivingPart { parts: Seq<PartView>, header: HeaderView, data: Seq<u8> },
    /// Stopped, at the end of the body or at a failure.
    Finished { parts: Seq<PartView>, failure: Option<DecodeError> },
}

/// The state in which decoding starts: between parts, with none received.
pub open spec fn initial() -> DecoderState {
    DecoderState::AwaitingPart { parts: Seq::empty() }
}

/// The state that follows `state` when `event` arrives.
///
/// A failure of any kind ends the decoding and keeps only the parts that were
/// complete before it: the part that was open is dropped, not shortened.
pub open spec fn step(state: DecoderState, event: EventView) -> DecoderState {
    match state {
        DecoderState::AwaitingPart { parts } => match event {
            EventView::PartOpened(header) => DecoderState::ReceivingPart {
                parts,
                header,
                data: Seq::empty(),
            },
            EventView::BodyEnded => DecoderState::Finished { parts, failure: None },
            EventView::BodyFailed => DecoderState::Finished {
                parts,
                failure: Some(DecodeError::MalformedBody),
            },
            _ => DecoderState::Finished { parts, failure: Some(DecodeError::OutOfSequence) },
        },
        DecoderState::ReceivingPart { parts, header, data } => match event {
            EventView::Chunk(bytes) => DecoderState::ReceivingPart {
                parts,
                header,
                data: data + bytes,
            },
            EventView::PartClosed => DecoderState::AwaitingPart {
                parts: parts.push(assembled(header, data)),
            },
            EventView::ChunkFailed => DecoderState::Finished {
                parts,
                failure: Some(DecodeError::PayloadInterrupted),
            },
            _ => DecoderState::Finished { parts, failure: Some(DecodeError::OutOfSequence) },
        },
        DecoderState::Finished { .. } => state,
    }
}

/// The state reached from `state` after all of `events`, in order.
pub open spec fn run(state: DecoderState, events: Seq<EventView>) -> DecoderState
    decreases events.len(),
{
    if events.len() == 0 {
        state
    } else {
        step(run(state, events.drop_last()), events.last())
    }
}

/// What the decoder asks for in `state`.
pub open spec fn wanted(state: DecoderState) -> Action {
    match state {
        DecoderState::AwaitingPart { .. } => Action::AwaitPart,
        DecoderState::ReceivingPart { .. } => Action::AwaitChunk,
        DecoderState::Finished { .. } => Action::Finish,
    }
}

/// The parts that are complete in `state`.
pub open spec fn parts_of(state: DecoderState) -> Seq<PartView> {
    match state {
        DecoderState::AwaitingPart { parts } => parts,
        DecoderState::ReceivingPart { parts, .. } => parts,
        DecoderState::Finished { parts, .. } => parts,
    }
}

/// Whether `earlier` is how `later` begins.
pub open spec fn begins_with(later: Seq<PartView>, earlier: Seq<PartView>) -> bool {
    earlier.len() <= later.len() && later.take(earlier.len() as int) == earlier
}

/// An event never removes, changes or reorders a part that is complete: it
/// leaves the parts as they are, or adds one part at the end, made of the
/// open header and the payload read so far.
pub proof fn law_step_keeps_parts(state: DecoderState, event: EventView)
    ensures
        begins_with(parts_of(step(state, event)), parts_of(state)),
        parts_of(step(state, event)).len() <= parts_of(state).len() + 1,
        parts_of(step(state, event)).len() == parts_of(state).len() + 1 ==> state is ReceivingPart
            && event is PartClosed && parts_of(step(state, event)).last() == assembled(
            state->ReceivingPart_header,
            state->ReceivingPart_data,
        ),
{
    let before = parts_of(state);
    let after = parts_of(step(state, event));
    assert(after.take(before.len() as int) =~= before);
}

/// However many events arrive, the parts that were complete stay as they
/// were, at the front and in their order.
pub proof fn law_run_keeps_parts(state: DecoderState, events: Seq<EventView>)
    ensures
        begins_with(parts_of(run(state, events)), parts_of(state)),
    decreases events.len(),
{
    if events.len() == 0 {
        assert(parts_of(state).take(parts_of(state).len() as int) =~= parts_of(state));
    } else {
        let middle = run(state, events.drop_last());
        law_run_keeps_parts(state, events.drop_last());
        law_step_keeps_parts(middle, events.last());
        let first = parts_of(state);
        let last = parts_of(run(state, events));
        assert(last.take(first.len() as int) =~= parts_of(middle).take(first.len() as int));
    }
}

/// Once decoding has stopped, no event changes its result.
pub proof fn law_finished_is_final(state: DecoderState, events: Seq<EventView>)
    requires
        state is Finished,
    ensures
        run(state, events) == state,
    decreases events.len(),
{
    if events.len() > 0 {
        law_finished_is_final(state, events.drop_last());
    }
}

/// A failure reported by the transport stops the decoding at once, whatever
/// the state, and the failure is kept in the result.
pub proof fn law_failure_stops(state: DecoderState, event: EventView)
    requires
        event is ChunkFailed || event is BodyFailed,
    ensures
        step(state, event) is Finished,
        !(state is Finished) ==> step(state, event)->Finished_failure is Some,
        wanted(step(state, event)) == Action::Finish,
{
}

/// The result of decoding, as a mathematical value.
pub struct OutcomeView {
    pub parts: Seq<PartView>,
    pub failure: Option<DecodeError>,
}

/// The result that `state` stands for when no further event is given.
///
/// A decoder that has not finished yields the parts completed so far and the
/// failure [`DecodeError::Incomplete`].
pub open spec fn outcome_of(state: DecoderState) -> OutcomeView {
    match state {
        DecoderState::AwaitingPart { parts } => OutcomeView {
            parts,
            failure: Some(DecodeError::Incomplete),
        },
        DecoderState::ReceivingPart { parts, .. } => OutcomeView {
            parts,
            failure: Some(DecodeError::Incomplete),
        },
        DecoderState::Finished { parts, failure } => OutcomeView { parts, failure },
    }
}

/// The result of decoding: the parts received, and the failure, if any, that
/// ended the decoding early.
#[derive(Debug, Clone, PartialEq, Eq)]
pub struct DecodeOutcome {
    /// The parts that were complete, in arrival order.
    pub parts: Vec<ReceivedPart>,
    /// `None` when the whole body was decoded.
    pub failure: Option<DecodeError>,
}

impl View for DecodeOutcome {
    type V = OutcomeView;

    open spec fn view(&self) -> OutcomeView {
        OutcomeView { parts: part_views(self.parts@), failure: self.failure }
    }
}

/// A decoder of one multipart body.
#[derive(Debug, Clone, PartialEq, Eq)]
pub enum Decoder {
    /// Between parts.
    AwaitingPart { parts: Vec<ReceivedPart> },
    /// Inside a part.
    ReceivingPart { parts: Vec<ReceivedPart>, header: PartHeader, data: Vec<u8> },
    /// Stopped.
    Finished { parts: Vec<ReceivedPart>, failure: Option<DecodeError> },
}

impl View for Decoder {
    type V = DecoderState;

    open spec fn view(&self) -> DecoderState {
        match *self {
            Decoder::AwaitingPart { parts } => DecoderState::AwaitingPart {
                parts: part_views(parts@),
            },
            Decoder::ReceivingPart { parts, header, data } => DecoderState::ReceivingPart {
                parts: part_views(parts@),
                header: header@,
                data: data@,
            },
            Decoder::Finished { parts, failure } => DecoderState::Finished {
                parts: part_views(parts@),
                failure,
            },
        }
    }
}

impl Decoder {
    /// A decoder at the start of a body.
    pub fn new() -> (decoder: Decoder)
        ensures
            decoder@ == initial(),
    {
        let decoder = Decoder::AwaitingPart { parts: Vec::new() };
        assert(part_views(Seq::<ReceivedPart>::empty()) =~= Seq::<PartView>::empty());
        decoder
    }

    /// What to do next for this decoder: which event to obtain, or to stop.
    pub fn next_action(&self) -> (action: Action)
        ensures
            action == wanted(self@),
    {
        match self {
            Decoder::AwaitingPart { .. } => Action::AwaitPart,
            Decoder::ReceivingPart { .. } => Action::AwaitChunk,
            Decoder::Finished { .. } => Action::Finish,
        }
    }

    /// Takes one event and moves to the next state.
    pub fn step(self, event: Event) -> (next: Decoder)
        ensures
            next@ == step(self@, event@),
    {
        match self {
            Decoder::AwaitingPart { parts } => match event {
                Event::PartOpened(header) => Decoder::ReceivingPart {
                    parts,
                    header,
                    data: Vec::new(),
                },
                Event::BodyEnded => Decoder::Finished { parts, failure: None },
                Event::BodyFailed => Decoder::Finished {
                    parts,
                    failure: Some(DecodeError::MalformedBody),
                },
                _ => Decoder::Finished { parts, failure: Some(DecodeError::OutOfSequence) },
            },
            Decoder::ReceivingPart { parts, header, data } => match event {
                Event::Chunk(bytes) => {
                    let mut data = data;
                    append_chunk(&mut data, bytes.as_slice());
                    Decoder::ReceivingPart { parts, header, data }
                },
                Event::PartClosed => {
                    let mut parts = parts;
                    let ghost before = part_views(parts@);
                    let part = ReceivedPart::assemble(header, data);
                    parts.push(part);
                    assert(part_views(parts@) =~= before.push(part@));
                    Decoder::AwaitingPart { parts }
                },
                Event::ChunkFailed => Decoder::Finished {
                    parts,
                    failure: Some(DecodeError::PayloadInterrupted),
                },
                _ => Decoder::Finished { parts, failure: Some(DecodeError::OutOfSequence) },
            },
            Decoder::Finished { parts, failure } => Decoder::Finished { parts, failure },
        }
    }

    /// Ends the decoding and hands out its result.
    pub fn finish(self) -> (outcome: DecodeOutcome)
        ensures
            outcome@ == outcome_of(self@),
    {
        match self {
            Decoder::AwaitingPart { parts } => DecodeOutcome {
                parts,
                failure: Some(DecodeError::Incomplete),
            },
            Decoder::ReceivingPart { parts, header: _, data: _ } => DecodeOutcome {
                parts,
                failure: Some(DecodeError::Incomplete),
            },
            Decoder::Finished { parts, failure } => DecodeOutcome { parts, failure },
        }
    }
}

/// Decodes a body from the full list of its events.
pub fn decode(events: Vec<Event>) -> (outcome: DecodeOutcome)
    ensures
        outcome@ == outcome_of(run(initial(), event_views(events@))),
{
    let ghost all = event_views(events@);
    let mut decoder = Decoder::new();
    for event in it: events
        invariant
            event_views(it.seq()) == all,
            decoder@ == run(initial(), all.take(it.index() as int)),
    {
        proof {
            let k = it.index() as int;
            assert(all.take(k + 1).drop_last() == all.take(k));
            assert(all.take(k + 1).last() == event@);
        }
        decoder = decoder.step(event);
    }
    proof {
        assert(all.take(all.len() as int) == all);
    }
    decoder.finish()
}

} // verus!
