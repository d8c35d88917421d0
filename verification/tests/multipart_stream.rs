use actix_multipart::Multipart;
use actix_web::error::PayloadError;
use actix_web::http::header::{HeaderMap, HeaderValue, CONTENT_TYPE};
use actix_web::web::Bytes;
use futures::executor::block_on;
use futures::stream;
use futures::{StreamExt, TryStreamExt};
use multipart_echo::decoder::{Action, DecodeOutcome, Decoder, Event};
use multipart_echo::error::DecodeError;
use multipart_echo::field::read_header;
use multipart_echo::handler::{respond, FailurePolicy, Rendering, Settings};

const BOUNDARY: &str = "abbc761f78ff4d7cb7573b5a23f96ef0";

fn multipart(chunks: Vec<Vec<u8>>) -> Multipart {
    let mut headers = HeaderMap::new();
    let value = format!("multipart/form-data; boundary=\"{}\"", BOUNDARY);
    headers.insert(CONTENT_TYPE, HeaderValue::from_str(&value).unwrap());
    let items: Vec<Result<Bytes, PayloadError>> =
        chunks.into_iter().map(|chunk| Ok(Bytes::from(chunk))).collect();
    Multipart::new(&headers, stream::iter(items))
}

fn decode_stream(mut payload: Multipart) -> DecodeOutcome {
    let mut decoder = Decoder::new();
    let mut open = None;
    loop {
        let event = match decoder.next_action() {
            Action::AwaitPart => {
                open = None;
                match block_on(payload.try_next()) {
                    Ok(Some(field)) => {
                        let header = read_header(&field);
                        open = Some(field);
                        Event::PartOpened(header)
                    }
                    Ok(None) => Event::BodyEnded,
                    Err(_) => Event::BodyFailed,
                }
            }
            Action::AwaitChunk => match open.as_mut() {
                Some(field) => match block_on(field.next()) {
                    Some(Ok(bytes)) => Event::Chunk(bytes.to_vec()),
                    Some(Err(_)) => Event::ChunkFailed,
                    None => Event::PartClosed,
                },
                None => unreachable!(),
            },
            Action::Finish => break,
        };
        decoder = decoder.step(event);
    }
    decoder.finish()
}

fn decode_bytes(body: &[u8], chunk_len: usize) -> DecodeOutcome {
    let chunks: Vec<Vec<u8>> = body.chunks(chunk_len).map(|c| c.to_vec()).collect();
    decode_stream(multipart(chunks))
}

fn round_trip_body() -> Vec<u8> {
    format!(
        "--{b}\r\n\
         Content-Disposition: form-data; name=\"file\"; filename=\"a.txt\"\r\n\
         Content-Type: text/plain\r\n\r\n\
         hello\r\n\
         --{b}--\r\n",
        b = BOUNDARY
    )
    .into_bytes()
}

fn two_part_body() -> Vec<u8> {
    format!(
        "--{b}\r\n\
         Content-Disposition: form-data; name=\"first\"\r\n\
         Content-Type: text/plain; charset=utf-8\r\n\r\n\
         one\r\ntwo lines\r\n\
         --{b}\r\n\
         Content-Type: application/json\r\n\r\n\
         {{\"k\": [1, 2, 3]}}\r\n\
         --{b}--\r\n",
        b = BOUNDARY
    )
    .into_bytes()
}

#[test]
fn a_submitted_file_comes_back_in_the_listing() {
    let outcome = decode_bytes(&round_trip_body(), 4096);
    assert_eq!(outcome.failure, None);
    assert_eq!(outcome.parts.len(), 1);
    let part = &outcome.parts[0];
    assert_eq!(part.content_type, "text/plain");
    assert_eq!(part.content_data, b"hello".to_vec());
    let disposition = part.content_disposition.clone().unwrap();
    assert!(disposition.contains("file"));
    assert!(disposition.contains("a.txt"));

    let response = respond(&Settings::default(), &outcome);
    assert_eq!(response.status, 200);
    assert!(response.body.starts_with("Part 0\ncontent-type: text/plain\ncontent-disposition: "));
    assert!(response.body.contains("file"));
    assert!(response.body.contains("a.txt"));
    assert!(response.body.ends_with("\ncontent-length: 5"));
}

#[test]
fn the_disposition_is_the_pretty_debug_form_of_the_header() {
    let outcome = decode_bytes(&round_trip_body(), 4096);
    assert_eq!(
        outcome.parts[0].content_disposition,
        Some(
            "ContentDisposition {\n    disposition: FormData,\n    parameters: [\n        Name(\n            \"file\",\n        ),\n        Filename(\n            \"a.txt\",\n        ),\n    ],\n}"
                .to_string()
        )
    );
}

#[test]
fn read_header_reads_type_and_disposition_of_a_field() {
    let mut payload = multipart(vec![round_trip_body()]);
    let field = block_on(payload.try_next()).unwrap().unwrap();
    let header = read_header(&field);
    assert_eq!(header.content_type, "text/plain");
    assert_eq!(header.content_type, field.content_type().to_string());
    assert_eq!(
        header.content_disposition,
        field.content_disposition().map(|d| format!("{:#?}", d))
    );
    assert!(header.content_disposition.is_some());
    assert_eq!(read_header(&field), header);
}

#[test]
fn transport_chunking_does_not_change_the_parts() {
    let body = two_part_body();
    let whole = decode_bytes(&body, body.len());
    assert_eq!(whole.failure, None);
    assert_eq!(whole.parts.len(), 2);
    assert_eq!(whole.parts[0].content_data, b"one\r\ntwo lines".to_vec());
    assert_eq!(whole.parts[1].content_data, b"{\"k\": [1, 2, 3]}".to_vec());
    for chunk_len in [1usize, 2, 3, 5, 7, 16, 64] {
        assert_eq!(decode_bytes(&body, chunk_len), whole, "chunks of {}", chunk_len);
    }
}

#[test]
fn parts_come_out_in_the_order_of_the_body() {
    let outcome = decode_bytes(&two_part_body(), 4096);
    assert_eq!(outcome.parts[0].content_type, "text/plain; charset=utf-8");
    assert_eq!(outcome.parts[1].content_type, "application/json");
    let response = respond(&Settings::default(), &outcome);
    assert_eq!(response.body.matches("Part ").count(), 2);
    let first = response.body.find("Part 0\ncontent-type: text/plain; charset=utf-8").unwrap();
    let second = response.body.find("Part 1\ncontent-type: application/json").unwrap();
    assert!(first < second);
}

#[test]
fn a_part_without_disposition_header_has_no_disposition() {
    let outcome = decode_bytes(&two_part_body(), 4096);
    assert!(outcome.parts[0].content_disposition.is_some());
    assert_eq!(outcome.parts[1].content_disposition, None);
    assert_eq!(
        outcome.parts[1].to_string(),
        "content-type: application/json\ncontent-disposition: \ncontent-length: 16"
    );
    let structured = respond(
        &Settings { rendering: Rendering::Structured, on_failure: FailurePolicy::Lenient },
        &outcome,
    );
    assert!(structured.body.contains("\"content_type\":\"application/json\",\"content_disposition\":null,"));
}

#[test]
fn a_part_without_content_type_gets_the_placeholder_of_the_reader() {
    let body = format!(
        "--{b}\r\nContent-Disposition: form-data; name=\"f\"\r\n\r\nxyz\r\n--{b}--\r\n",
        b = BOUNDARY
    );
    let outcome = decode_bytes(body.as_bytes(), 4096);
    assert_eq!(outcome.failure, None);
    assert_eq!(outcome.parts[0].content_type, "application/octet-stream");
    assert_eq!(outcome.parts[0].content_data, b"xyz".to_vec());
}

#[test]
fn a_body_without_parts_is_no_error() {
    // The reader takes the boundary followed by two dashes, at the start of a
    // line, for the end of a body that has no part.
    let body = format!("{b}--\r\n", b = BOUNDARY);
    let outcome = decode_bytes(body.as_bytes(), 4096);
    assert_eq!(outcome, DecodeOutcome { parts: Vec::new(), failure: None });
    let response = respond(&Settings::default(), &outcome);
    assert_eq!(response.status, 200);
    assert_eq!(response.body, "");
    let structured = respond(
        &Settings { rendering: Rendering::Structured, on_failure: FailurePolicy::Lenient },
        &outcome,
    );
    assert_eq!(structured.status, 200);
    assert_eq!(structured.body, "[]");
}

#[test]
fn a_body_that_never_opens_a_part_is_malformed() {
    let body = b"no boundary in here\r\n";
    let outcome = decode_bytes(body, 4096);
    assert_eq!(outcome, DecodeOutcome { parts: Vec::new(), failure: Some(DecodeError::MalformedBody) });
    let response = respond(&Settings::default(), &outcome);
    assert_eq!(response.status, 200);
    assert_eq!(response.body, "");
}

#[test]
fn a_body_cut_off_inside_a_payload_keeps_the_parts_before_it() {
    let body = two_part_body();
    let cut = body.len() - 45;
    let outcome = decode_bytes(&body[..cut], 4096);
    assert_eq!(outcome.failure, Some(DecodeError::PayloadInterrupted));
    assert_eq!(outcome.parts.len(), 1);
    assert_eq!(outcome.parts[0].content_data, b"one\r\ntwo lines".to_vec());
    let lenient = respond(&Settings::default(), &outcome);
    assert_eq!(lenient.status, 200);
    assert_eq!(lenient.body.matches("Part ").count(), 1);
    let strict = respond(
        &Settings { rendering: Rendering::Textual, on_failure: FailurePolicy::Strict },
        &outcome,
    );
    assert_eq!(strict.status, 400);
    assert_eq!(strict.body, "payload interrupted");
}

#[test]
fn a_body_cut_off_inside_a_header_keeps_the_parts_before_it() {
    let body = two_part_body();
    let cut = body.len() - 60;
    let outcome = decode_bytes(&body[..cut], 4096);
    assert_eq!(outcome.failure, Some(DecodeError::MalformedBody));
    assert_eq!(outcome.parts.len(), 1);
    assert_eq!(outcome.parts[0].content_data, b"one\r\ntwo lines".to_vec());
    let strict = respond(
        &Settings { rendering: Rendering::Textual, on_failure: FailurePolicy::Strict },
        &outcome,
    );
    assert_eq!(strict.status, 400);
    assert_eq!(strict.body, "malformed multipart body");
}

#[test]
fn a_request_that_is_not_multipart_is_a_malformed_body() {
    let headers = HeaderMap::new();
    let items: Vec<Result<Bytes, PayloadError>> = vec![Ok(Bytes::from_static(b"plain text"))];
    let outcome = decode_stream(Multipart::new(&headers, stream::iter(items)));
    assert_eq!(outcome, DecodeOutcome { parts: Vec::new(), failure: Some(DecodeError::MalformedBody) });
    assert_eq!(respond(&Settings::default(), &outcome).status, 200);
    assert_eq!(respond(&Settings::default(), &outcome).body, "");
}
