use multipart_echo::decoder::{DecodeOutcome, Event};
use multipart_echo::error::DecodeError;
use multipart_echo::handler::{
    describe_failure, receive_multiparts, respond, FailurePolicy, Rendering, Response, Settings,
    STATUS_BAD_REQUEST, STATUS_OK,
};
use multipart_echo::part::{PartHeader, ReceivedPart};

fn part(content_type: &str, disposition: Option<&str>, data: &[u8]) -> ReceivedPart {
    ReceivedPart {
        content_type: content_type.to_string(),
        content_disposition: disposition.map(|d| d.to_string()),
        content_data: data.to_vec(),
    }
}

fn settings(rendering: Rendering, on_failure: FailurePolicy) -> Settings {
    Settings { rendering, on_failure }
}

fn one_part_events() -> Vec<Event> {
    vec![
        Event::PartOpened(PartHeader::new("text/plain".to_string(), Some("file a.txt".to_string()))),
        Event::Chunk(b"hel".to_vec()),
        Event::Chunk(b"lo".to_vec()),
        Event::PartClosed,
        Event::BodyEnded,
    ]
}

#[test]
fn the_status_codes_are_200_and_400() {
    assert_eq!(STATUS_OK, 200);
    assert_eq!(STATUS_BAD_REQUEST, 400);
}

#[test]
fn the_default_settings_are_textual_and_lenient() {
    assert_eq!(Settings::default(), settings(Rendering::Textual, FailurePolicy::Lenient));
}

#[test]
fn each_failure_has_its_sentence() {
    assert_eq!(describe_failure(DecodeError::MalformedBody), "malformed multipart body");
    assert_eq!(describe_failure(DecodeError::PayloadInterrupted), "payload interrupted");
    assert_eq!(describe_failure(DecodeError::OutOfSequence), "events out of sequence");
    assert_eq!(describe_failure(DecodeError::Incomplete), "incomplete multipart body");
}

#[test]
fn a_complete_decoding_is_answered_with_its_rendering() {
    let outcome = DecodeOutcome { parts: vec![part("a/b", None, b"xy")], failure: None };
    for policy in [FailurePolicy::Lenient, FailurePolicy::Strict] {
        assert_eq!(
            respond(&settings(Rendering::Textual, policy), &outcome),
            Response {
                status: 200,
                body: "Part 0\ncontent-type: a/b\ncontent-disposition: \ncontent-length: 2".to_string(),
            }
        );
        assert_eq!(
            respond(&settings(Rendering::Structured, policy), &outcome),
            Response {
                status: 200,
                body: "[{\"content_type\":\"a/b\",\"content_disposition\":null,\"content_data\":[120,121]}]"
                    .to_string(),
            }
        );
    }
}

#[test]
fn a_lenient_endpoint_shows_what_was_decoded_before_a_failure() {
    let outcome = DecodeOutcome {
        parts: vec![part("a/b", Some("d"), b"xy")],
        failure: Some(DecodeError::PayloadInterrupted),
    };
    assert_eq!(
        respond(&settings(Rendering::Textual, FailurePolicy::Lenient), &outcome),
        Response {
            status: 200,
            body: "Part 0\ncontent-type: a/b\ncontent-disposition: d\ncontent-length: 2".to_string(),
        }
    );
    let nothing = DecodeOutcome { parts: Vec::new(), failure: Some(DecodeError::MalformedBody) };
    assert_eq!(
        respond(&settings(Rendering::Textual, FailurePolicy::Lenient), &nothing),
        Response { status: 200, body: String::new() }
    );
    assert_eq!(
        respond(&settings(Rendering::Structured, FailurePolicy::Lenient), &nothing),
        Response { status: 200, body: "[]".to_string() }
    );
}

#[test]
fn a_strict_endpoint_names_the_failure() {
    let failures = [
        (DecodeError::MalformedBody, "malformed multipart body"),
        (DecodeError::PayloadInterrupted, "payload interrupted"),
        (DecodeError::OutOfSequence, "events out of sequence"),
        (DecodeError::Incomplete, "incomplete multipart body"),
    ];
    for (failure, sentence) in failures {
        let outcome = DecodeOutcome { parts: vec![part("a/b", None, b"xy")], failure: Some(failure) };
        for rendering in [Rendering::Textual, Rendering::Structured] {
            assert_eq!(
                respond(&settings(rendering, FailurePolicy::Strict), &outcome),
                Response { status: 400, body: sentence.to_string() }
            );
        }
    }
}

#[test]
fn receive_multiparts_decodes_and_renders() {
    let response = receive_multiparts(&Settings::default(), one_part_events());
    assert_eq!(
        response,
        Response {
            status: 200,
            body: "Part 0\ncontent-type: text/plain\ncontent-disposition: file a.txt\ncontent-length: 5"
                .to_string(),
        }
    );
    let structured = receive_multiparts(
        &settings(Rendering::Structured, FailurePolicy::Lenient),
        one_part_events(),
    );
    assert_eq!(
        structured.body,
        "[{\"content_type\":\"text/plain\",\"content_disposition\":\"file a.txt\",\"content_data\":[104,101,108,108,111]}]"
    );
}

#[test]
fn receive_multiparts_of_an_empty_body_is_no_error() {
    for policy in [FailurePolicy::Lenient, FailurePolicy::Strict] {
        assert_eq!(
            receive_multiparts(&settings(Rendering::Textual, policy), vec![Event::BodyEnded]),
            Response { status: 200, body: String::new() }
        );
        assert_eq!(
            receive_multiparts(&settings(Rendering::Structured, policy), vec![Event::BodyEnded]),
            Response { status: 200, body: "[]".to_string() }
        );
    }
}

#[test]
fn receive_multiparts_lists_as_many_entries_as_parts() {
    for n in 0..20usize {
        let mut events = Vec::new();
        for i in 0..n {
            events.push(Event::PartOpened(PartHeader::new(format!("type/{}", i), None)));
            events.push(Event::Chunk(vec![0u8; i]));
            events.push(Event::PartClosed);
        }
        events.push(Event::BodyEnded);
        let response = receive_multiparts(&Settings::default(), events);
        assert_eq!(response.status, 200);
        assert_eq!(response.body.matches("Part ").count(), n);
        let mut from = 0;
        for i in 0..n {
            let block = format!(
                "Part {}\ncontent-type: type/{}\ncontent-disposition: \ncontent-length: {}",
                i, i, i
            );
            assert!(response.body[from..].starts_with(&block));
            from += block.len();
        }
        assert_eq!(from, response.body.len());
    }
}

#[test]
fn receive_multiparts_with_a_failure_follows_the_policy() {
    let events = vec![
        Event::PartOpened(PartHeader::new("a/b".to_string(), None)),
        Event::Chunk(b"x".to_vec()),
        Event::PartClosed,
        Event::PartOpened(PartHeader::new("c/d".to_string(), None)),
        Event::Chunk(b"y".to_vec()),
        Event::ChunkFailed,
    ];
    assert_eq!(
        receive_multiparts(&settings(Rendering::Textual, FailurePolicy::Lenient), events.clone()),
        Response {
            status: 200,
            body: "Part 0\ncontent-type: a/b\ncontent-disposition: \ncontent-length: 1".to_string(),
        }
    );
    assert_eq!(
        receive_multiparts(&settings(Rendering::Textual, FailurePolicy::Strict), events),
        Response { status: 400, body: "payload interrupted".to_string() }
    );
}
