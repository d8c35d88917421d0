//! The endpoint: from the events of one request body to the response.

use vstd::prelude::*;
use vstd::string::StringExecFns;

use crate::decoder::{
    decode, event_views, initial, outcome_of, run, DecodeOutcome, Event, OutcomeView,
};
use crate::error::DecodeError;
use crate::part::PartView;
use crate::render::{block_text, blocks, listing, part_text, render_listing};
use crate::sequence::joined;
use crate::structured::{
    disposition_value, document, escaped_char, quoted, record, records, render_document,
};
use crate::submission::{
    body_events, expected_part, expected_parts, law_complete_body_decodes, SubmittedPart,
};
use crate::text::decimal;

verus! {

/// The status of a response that shows what was decoded.
pub const STATUS_OK: u16 = 200;

/// The status of a response that reports a body that could not be decoded.
pub const STATUS_BAD_REQUEST: u16 = 400;

/// How the received parts are shown in the response body.
#[derive(Debug, Clone, Copy, PartialEq, Eq, Structural)]
pub enum Rendering {
    /// A labelled block of text for each part; payloads are not shown, only
    /// their lengths.
    Textual,
    /// A JSON document with a record for each part, payload included.
    Structured,
}

/// What the endpoint answers when decoding stopped at a failure.
#[derive(Debug, Clone, Copy, PartialEq, Eq, Structural)]
pub enum FailurePolicy {
    /// Answer as for a success, showing the parts that were complete.
    Lenient,
    /// Answer with a client error that names the failure.
    Strict,
}

/// The settings of the endpoint.
#[derive(Debug, Clone, Copy, PartialEq, Eq, Structural)]
pub struct Settings {
    pub rendering: Rendering,
    pub on_failure: FailurePolicy,
}

/// The response to one request.
#[derive(Debug, Clone, PartialEq, Eq)]
pub struct Response {
    /// The HTTP status code.
    pub status: u16,
    /// The response body.
    pub body: String,
}

/// The mathematical value of a [`Response`].
pub struct ResponseView {
    pub status: u16,
    pub body: Seq<char>,
}

impl View for Response {
    type V = ResponseView;

    open spec fn view(&self) -> ResponseView {
        ResponseView { status: self.status, body: self.body@ }
    }
}

/// The settings in use where no others are given: a textual listing, also of
/// what was decoded before a failure.
pub open spec fn lenient_textual() -> Settings {
    Settings { rendering: Rendering::Textual, on_failure: FailurePolicy::Lenient }
}

impl Default for Settings {
    fn default() -> (settings: Settings)
        ensures
            settings == lenient_textual(),
    {
        Settings { rendering: Rendering::Textual, on_failure: FailurePolicy::Lenient }
    }
}

/// The body that shows `parts` in the given rendering.
pub open spec fn rendered(rendering: Rendering, parts: Seq<PartView>) -> Seq<char> {
    match rendering {
        Rendering::Textual => listing(parts),
        Rendering::Structured => document(parts),
    }
}

/// The sentence that names a failure in a response body.
pub open spec fn failure_text(failure: DecodeError) -> Seq<char> {
    match failure {
        DecodeError::MalformedBody => "malformed multipart body"@,
        DecodeError::PayloadInterrupted => "payload interrupted"@,
        DecodeError::OutOfSequence => "events out of sequence"@,
        DecodeError::Incomplete => "incomplete multipart body"@,
    }
}

/// The response that the settings prescribe for the result of a decoding.
///
/// A complete decoding is answered with status 200 and the rendering of its
/// parts. A failed one is answered in the same way under the lenient policy,
/// showing the parts that were complete; under the strict policy it is
/// answered with status 400 and the sentence that names the failure.
pub open spec fn response_for(settings: Settings, outcome: OutcomeView) -> ResponseView {
    if outcome.failure is Some && settings.on_failure == FailurePolicy::Strict {
        ResponseView { status: STATUS_BAD_REQUEST, body: failure_text(outcome.failure->Some_0) }
    } else {
        ResponseView { status: STATUS_OK, body: rendered(settings.rendering, outcome.parts) }
    }
}

/// The sentence that names `failure`.
pub fn describe_failure(failure: DecodeError) -> (text: String)
    ensures
        text@ == failure_text(failure),
{
    match failure {
        DecodeError::MalformedBody => String::from_str("malformed multipart body"),
        DecodeError::PayloadInterrupted => String::from_str("payload interrupted"),
        DecodeError::OutOfSequence => String::from_str("events out of sequence"),
        DecodeError::Incomplete => String::from_str("incomplete multipart body"),
    }
}

/// Builds the response for the result of a decoding.
pub fn respond(settings: &Settings, outcome: &DecodeOutcome) -> (response: Response)
    ensures
        response@ == response_for(*settings, outcome@),
{
    match (outcome.failure, settings.on_failure) {
        (Some(failure), FailurePolicy::Strict) => Response {
            status: STATUS_BAD_REQUEST,
            body: describe_failure(failure),
        },
        _ => {
            let body = match settings.rendering {
                Rendering::Textual => render_listing(&outcome.parts),
                Rendering::Structured => render_document(&outcome.parts),
            };
            Response { status: STATUS_OK, body }
        },
    }
}

/// Answers one request, given every event of its body: decodes the events,
/// then builds the response for the result.
pub fn receive_multiparts(settings: &Settings, events: Vec<Event>) -> (response: Response)
    ensures
        response@ == response_for(*settings, outcome_of(run(initial(), event_views(events@)))),
{
    let outcome = decode(events);
    respond(settings, &outcome)
}

/// A complete body of N parts is answered with status 200, whatever the
/// settings, and the body shows exactly the N parts, in the order of
/// submission: the textual listing has N blocks, the structured document N
/// records, and the entry at each position is the one of the part submitted
/// at that position, with its chunks joined.
pub proof fn law_response_shows_every_part(settings: Settings, parts: Seq<SubmittedPart>)
    ensures
        response_for(settings, outcome_of(run(initial(), body_events(parts)))) == (ResponseView {
            status: STATUS_OK,
            body: rendered(settings.rendering, expected_parts(parts)),
        }),
        listing(expected_parts(parts)) == joined(blocks(expected_parts(parts))),
        blocks(expected_parts(parts)).len() == parts.len(),
        records(expected_parts(parts)).len() == parts.len(),
        forall|i: int|
            0 <= i < parts.len() ==> #[trigger] blocks(expected_parts(parts))[i] == block_text(
                i as nat,
                expected_part(parts[i]),
            ),
        forall|i: int|
            0 <= i < parts.len() ==> #[trigger] records(expected_parts(parts))[i] == record(
                expected_part(parts[i]),
            ),
{
    law_complete_body_decodes(parts);
}

/// A body without parts is no error: it is answered with status 200, with an
/// empty listing or an empty document.
pub proof fn law_empty_body(settings: Settings)
    ensures
        outcome_of(run(initial(), body_events(Seq::empty()))) == (OutcomeView {
            parts: Seq::empty(),
            failure: None,
        }),
        response_for(settings, outcome_of(run(initial(), body_events(Seq::empty())))).status
            == STATUS_OK,
        listing(Seq::empty()) == Seq::<char>::empty(),
        blocks(Seq::empty()).len() == 0,
        document(Seq::empty()) == seq!['[', ']'],
{
    law_complete_body_decodes(Seq::empty());
    assert(expected_parts(Seq::empty()) =~= Seq::<PartView>::empty());
    assert(blocks(Seq::empty()) =~= Seq::<Seq<char>>::empty());
    assert(records(Seq::empty()) =~= Seq::<Seq<char>>::empty());
    assert(document(Seq::empty()) =~= seq!['[', ']']);
}

/// The part that is `part` but for its disposition.
pub open spec fn with_disposition(part: PartView, disposition: Option<Seq<char>>) -> PartView {
    PartView {
        content_type: part.content_type,
        content_disposition: disposition,
        content_data: part.content_data,
    }
}

/// A part without a disposition is shown with an empty disposition line in
/// the textual listing, exactly as a part whose disposition is the empty
/// string. In the structured document its disposition is `null`, which no
/// part with a disposition has: there the two are told apart.
pub proof fn law_absent_disposition(part: PartView)
    requires
        part.content_disposition is None,
    ensures
        part_text(part) == "content-type: "@ + part.content_type + "\ncontent-disposition: "@
            + "\ncontent-length: "@ + decimal(part.content_data.len()),
        part_text(part) == part_text(with_disposition(part, Some(Seq::empty()))),
        disposition_value(part.content_disposition) == "null"@,
        forall|description: Seq<char>|
            disposition_value(part.content_disposition) != #[trigger] disposition_value(
                Some(description),
            ),
        record(part) != record(with_disposition(part, Some(Seq::empty()))),
{
    reveal_strlit("null");
    let shown = "content-type: "@ + part.content_type + "\ncontent-disposition: "@;
    assert(shown + Seq::<char>::empty() =~= shown);
    assert forall|description: Seq<char>|
        disposition_value(part.content_disposition) != #[trigger] disposition_value(
            Some(description),
        ) by {
        assert("null"@[0] == 'n');
        assert(quoted(description)[0] == '"');
    }
    let other = with_disposition(part, Some(Seq::empty()));
    assert(record(part).len() != record(other).len()) by {
        assert(Seq::new(0, |i: int| escaped_char(Seq::<char>::empty()[i])) =~= Seq::<
            Seq<char>,
        >::empty());
        assert(quoted(Seq::empty()).len() == 2);
        assert("null"@.len() == 4);
    }
}

} // verus!
