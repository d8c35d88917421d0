use multipart_echo::part::ReceivedPart;
use multipart_echo::render::{render_listing, write_block};
use multipart_echo::text::push_decimal;

fn part(content_type: &str, disposition: Option<&str>, data: &[u8]) -> ReceivedPart {
    ReceivedPart {
        content_type: content_type.to_string(),
        content_disposition: disposition.map(|d| d.to_string()),
        content_data: data.to_vec(),
    }
}

fn decimal(n: usize) -> String {
    let mut out = String::new();
    push_decimal(&mut out, n);
    out
}

#[test]
fn push_decimal_writes_the_numeral() {
    assert_eq!(decimal(0), "0");
    assert_eq!(decimal(7), "7");
    assert_eq!(decimal(9), "9");
    assert_eq!(decimal(10), "10");
    assert_eq!(decimal(99), "99");
    assert_eq!(decimal(100), "100");
    assert_eq!(decimal(1234567890), "1234567890");
    assert_eq!(decimal(usize::MAX), format!("{}", usize::MAX));
}

#[test]
fn push_decimal_appends_to_what_is_there() {
    let mut out = String::from("n=");
    push_decimal(&mut out, 42);
    assert_eq!(out, "n=42");
}

#[test]
fn push_decimal_agrees_with_the_standard_format() {
    for n in (0..5000usize).chain([65535, 65536, 999_999, 1_000_000]) {
        assert_eq!(decimal(n), format!("{}", n));
    }
}

#[test]
fn to_string_shows_type_disposition_and_length() {
    let p = part("text/plain", Some("form-data; name=\"file\""), b"hello");
    assert_eq!(
        p.to_string(),
        "content-type: text/plain\ncontent-disposition: form-data; name=\"file\"\ncontent-length: 5"
    );
}

#[test]
fn to_string_of_a_part_without_disposition_has_an_empty_segment() {
    let p = part("application/octet-stream", None, b"");
    assert_eq!(
        p.to_string(),
        "content-type: application/octet-stream\ncontent-disposition: \ncontent-length: 0"
    );
    let q = part("application/octet-stream", Some(""), b"");
    assert_eq!(p.to_string(), q.to_string());
}

#[test]
fn to_string_reports_the_length_not_the_payload() {
    let payload = vec![b'Z'; 1234];
    let p = part("a/b", None, &payload);
    let text = p.to_string();
    assert_eq!(text, "content-type: a/b\ncontent-disposition: \ncontent-length: 1234");
    assert!(!text.contains('Z'));
}

#[test]
fn write_text_appends() {
    let mut out = String::from(">> ");
    part("a/b", Some("d"), b"xy").write_text(&mut out);
    assert_eq!(out, ">> content-type: a/b\ncontent-disposition: d\ncontent-length: 2");
}

#[test]
fn write_block_numbers_the_part() {
    let mut out = String::new();
    write_block(&mut out, 3, &part("a/b", None, b"xyz"));
    assert_eq!(out, "Part 3\ncontent-type: a/b\ncontent-disposition: \ncontent-length: 3");
}

#[test]
fn the_listing_of_no_parts_is_empty() {
    assert_eq!(render_listing(&Vec::new()), "");
}

#[test]
fn the_listing_has_one_block_for_each_part_in_order() {
    let parts = vec![
        part("text/plain", Some("first"), b"hello"),
        part("image/png", None, b""),
        part("text/plain", Some("third"), b"0123456789ab"),
    ];
    assert_eq!(
        render_listing(&parts),
        "Part 0\ncontent-type: text/plain\ncontent-disposition: first\ncontent-length: 5\
         Part 1\ncontent-type: image/png\ncontent-disposition: \ncontent-length: 0\
         Part 2\ncontent-type: text/plain\ncontent-disposition: third\ncontent-length: 12"
    );
}

#[test]
fn the_listing_is_the_blocks_one_after_the_other() {
    let parts: Vec<ReceivedPart> = (0..12).map(|i| part("a/b", None, &vec![0u8; i])).collect();
    let mut expected = String::new();
    for (i, p) in parts.iter().enumerate() {
        expected.push_str(&format!("Part {}\n", i));
        expected.push_str(&p.to_string());
    }
    let listing = render_listing(&parts);
    assert_eq!(listing, expected);
    assert_eq!(listing.matches("Part ").count(), 12);
    assert!(listing.contains("Part 10\ncontent-type: a/b\ncontent-disposition: \ncontent-length: 10"));
    assert!(listing.ends_with("Part 11\ncontent-type: a/b\ncontent-disposition: \ncontent-length: 11"));
}
