//! Multipart bodies as their senders wrote them, and what decoding makes of
//! the events they give rise to.

use vstd::prelude::*;

use crate::decoder::{initial, outcome_of, run, step, DecoderState, EventView, OutcomeView};
use crate::error::DecodeError;
use crate::part::{assembled, HeaderView, PartView};
use crate::payload::{is_cutting, law_chunking_preserves_payload, pieces};
use crate::sequence::joined;

verus! {

/// A part as it travels: its header, and its payload cut into chunks by the
/// transport.
pub struct SubmittedPart {
    pub header: HeaderView,
    pub chunks: Seq<Seq<u8>>,
}

/// The events that carry the given chunks, one event for each chunk.
pub open spec fn chunk_events(chunks: Seq<Seq<u8>>) -> Seq<EventView> {
    Seq::new(chunks.len(), |i: int| EventView::Chunk(chunks[i]))
}

/// The events of one part: its opening, its chunks, its end.
pub open spec fn part_events(part: SubmittedPart) -> Seq<EventView> {
    seq![EventView::PartOpened(part.header)] + chunk_events(part.chunks) + seq![
        EventView::PartClosed,
    ]
}

/// The events of the given parts, one part after the other.
pub open spec fn parts_events(parts: Seq<SubmittedPart>) -> Seq<EventView>
    decreases parts.len(),
{
    if parts.len() == 0 {
        Seq::empty()
    } else {
        parts_events(parts.drop_last()) + part_events(parts.last())
    }
}

/// The events of a complete body made of the given parts.
pub open spec fn body_events(parts: Seq<SubmittedPart>) -> Seq<EventView> {
    parts_events(parts).push(EventView::BodyEnded)
}

/// The part that a receiver should hold for a submitted part: the same
/// header, and the chunks joined.
pub open spec fn expected_part(part: SubmittedPart) -> PartView {
    assembled(part.header, joined(part.chunks))
}

/// The parts that a receiver should hold for a submitted body.
pub open spec fn expected_parts(parts: Seq<SubmittedPart>) -> Seq<PartView> {
    Seq::new(parts.len(), |i: int| expected_part(parts[i]))
}

/// Running over two event lists in a row is running over their concatenation.
pub proof fn lemma_run_concat(state: DecoderState, first: Seq<EventView>, second: Seq<EventView>)
    ensures
        run(state, first + second) == run(run(state, first), second),
    decreases second.len(),
{
    if second.len() == 0 {
        assert(first + second =~= first);
    } else {
        lemma_run_concat(state, first, second.drop_last());
        assert((first + second).drop_last() =~= first + second.drop_last());
        assert((first + second).last() == second.last());
    }
}

/// Inside a part, chunk events add their bytes to the payload and change
/// nothing else.
pub proof fn lemma_run_chunks(
    parts: Seq<PartView>,
    header: HeaderView,
    data: Seq<u8>,
    chunks: Seq<Seq<u8>>,
)
    ensures
        run(DecoderState::ReceivingPart { parts, header, data }, chunk_events(chunks))
            == (DecoderState::ReceivingPart { parts, header, data: data + joined(chunks) }),
    decreases chunks.len(),
{
    if chunks.len() == 0 {
        assert(data + joined(chunks) =~= data);
    } else {
        lemma_run_chunks(parts, header, data, chunks.drop_last());
        assert(chunk_events(chunks).drop_last() =~= chunk_events(chunks.drop_last()));
        assert(chunk_events(chunks).last() == EventView::Chunk(chunks.last()));
        assert((data + joined(chunks.drop_last())) + chunks.last() =~= data + joined(chunks));
    }
}

/// Between parts, the events of one part add that part, with its chunks
/// joined, to the parts received.
pub proof fn lemma_run_part(parts: Seq<PartView>, part: SubmittedPart)
    ensures
        run(DecoderState::AwaitingPart { parts }, part_events(part))
            == (DecoderState::AwaitingPart { parts: parts.push(expected_part(part)) }),
{
    let start = DecoderState::AwaitingPart { parts };
    let opening = seq![EventView::PartOpened(part.header)];
    let closing = seq![EventView::PartClosed];
    let opened = DecoderState::ReceivingPart { parts, header: part.header, data: Seq::empty() };
    let filled = DecoderState::ReceivingPart {
        parts,
        header: part.header,
        data: joined(part.chunks),
    };
    assert(run(start, opening) == opened) by {
        assert(opening.drop_last() =~= Seq::<EventView>::empty());
        assert(run(start, opening.drop_last()) == start);
    }
    assert(run(opened, chunk_events(part.chunks)) == filled) by {
        lemma_run_chunks(parts, part.header, Seq::empty(), part.chunks);
        assert(Seq::<u8>::empty() + joined(part.chunks) =~= joined(part.chunks));
    }
    assert(run(filled, closing) == step(filled, EventView::PartClosed)) by {
        assert(closing.drop_last() =~= Seq::<EventView>::empty());
        assert(run(filled, closing.drop_last()) == filled);
    }
    lemma_run_concat(start, opening, chunk_events(part.chunks));
    lemma_run_concat(start, opening + chunk_events(part.chunks), closing);
}

/// However the transport cuts the payload of a part into chunks, the part
/// that is received holds the payload as it was sent, byte for byte.
pub proof fn law_payload_survives_chunking(
    parts: Seq<PartView>,
    header: HeaderView,
    payload: Seq<u8>,
    cuts: Seq<int>,
)
    requires
        is_cutting(payload.len(), cuts),
    ensures
        run(
            DecoderState::AwaitingPart { parts },
            part_events(SubmittedPart { header, chunks: pieces(payload, cuts) }),
        ) == (DecoderState::AwaitingPart { parts: parts.push(assembled(header, payload)) }),
{
    law_chunking_preserves_payload(payload, cuts);
    lemma_run_part(parts, SubmittedPart { header, chunks: pieces(payload, cuts) });
}

/// The events of whole parts leave the decoder between parts, holding what
/// is expected of each part, in the order of submission.
pub proof fn lemma_run_parts(parts: Seq<SubmittedPart>)
    ensures
        run(initial(), parts_events(parts)) == (DecoderState::AwaitingPart {
            parts: expected_parts(parts),
        }),
    decreases parts.len(),
{
    if parts.len() == 0 {
        assert(expected_parts(parts) =~= Seq::<PartView>::empty());
    } else {
        let earlier = parts.drop_last();
        lemma_run_parts(earlier);
        lemma_run_concat(initial(), parts_events(earlier), part_events(parts.last()));
        lemma_run_part(expected_parts(earlier), parts.last());
        assert(expected_parts(earlier).push(expected_part(parts.last())) =~= expected_parts(
            parts,
        ));
    }
}

/// Decoding a complete body of N parts succeeds and yields exactly N parts,
/// in the order of submission: each with the header it was sent with and with
/// its chunks joined in arrival order. A body of no parts yields no part and
/// no failure.
pub proof fn law_complete_body_decodes(parts: Seq<SubmittedPart>)
    ensures
        outcome_of(run(initial(), body_events(parts))) == (OutcomeView {
            parts: expected_parts(parts),
            failure: None,
        }),
        expected_parts(parts).len() == parts.len(),
        forall|i: int|
            0 <= i < parts.len() ==> #[trigger] expected_parts(parts)[i] == expected_part(
                parts[i],
            ),
{
    lemma_run_parts(parts);
    assert(body_events(parts).drop_last() =~= parts_events(parts));
}

/// A body whose transport fails inside a part yields the parts that were
/// complete before that part, and the failure; the bytes read of the
/// unfinished part are not handed out as a part.
pub proof fn law_interrupted_part_is_dropped(
    complete: Seq<SubmittedPart>,
    header: HeaderView,
    chunks: Seq<Seq<u8>>,
)
    ensures
        outcome_of(
            run(
                initial(),
                parts_events(complete) + seq![EventView::PartOpened(header)] + chunk_events(chunks)
                    + seq![EventView::ChunkFailed],
            ),
        ) == (OutcomeView {
            parts: expected_parts(complete),
            failure: Some(DecodeError::PayloadInterrupted),
        }),
{
    let between = DecoderState::AwaitingPart { parts: expected_parts(complete) };
    let opening = seq![EventView::PartOpened(header)];
    let failing = seq![EventView::ChunkFailed];
    let opened = DecoderState::ReceivingPart {
        parts: expected_parts(complete),
        header,
        data: Seq::empty(),
    };
    let filled = DecoderState::ReceivingPart {
        parts: expected_parts(complete),
        header,
        data: Seq::empty() + joined(chunks),
    };
    lemma_run_parts(complete);
    assert(run(between, opening) == opened) by {
        assert(opening.drop_last() =~= Seq::<EventView>::empty());
        assert(run(between, opening.drop_last()) == between);
    }
    lemma_run_chunks(expected_parts(complete), header, Seq::empty(), chunks);
    assert(run(filled, failing) == step(filled, EventView::ChunkFailed)) by {
        assert(failing.drop_last() =~= Seq::<EventView>::empty());
        assert(run(filled, failing.drop_last()) == filled);
    }
    lemma_run_concat(initial(), parts_events(complete), opening);
    lemma_run_concat(initial(), parts_events(complete) + opening, chunk_events(chunks));
    lemma_run_concat(
        initial(),
        parts_events(complete) + opening + chunk_events(chunks),
        failing,
    );
}

} // verus!
