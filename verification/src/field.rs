//! Reading the header of a part from the field that the multipart reader
//! hands out.

use actix_multipart::Field;
use vstd::prelude::*;

use crate::part::{text_of, HeaderView, PartHeader};

verus! {

/// A field of a multipart stream, as `actix_multipart` hands it out. Nothing
/// of its inside is known here.
#[verifier::external_type_specification]
#[verifier::external_body]
pub struct ExField(actix_multipart::Field);

/// The content type that `field` declares, written as text.
pub uninterp spec fn declared_content_type(field: &Field) -> Seq<char>;

/// The description of the disposition that `field` declares; `None` where it
/// declares none that can be read.
pub uninterp spec fn declared_disposition(field: &Field) -> Option<Seq<char>>;

/// Calls `Field::content_type` and writes the MIME type as text. The field
/// keeps its content type unchanged from the moment it is handed out, so the
/// text depends on the field alone.
#[verifier::external_body]
fn content_type_of(field: &Field) -> (text: String)
    ensures
        text@ == declared_content_type(field),
{
    field.content_type().to_string()
}

/// Calls `Field::content_disposition`, which parses the disposition header
/// that the field keeps, and writes what it returns in the pretty debug
/// format. The result is `None` where the field has no such header or the
/// header cannot be parsed, and depends on the field alone.
#[verifier::external_body]
fn disposition_of(field: &Field) -> (text: Option<String>)
    ensures
        text_of(text) == declared_disposition(field),
{
    field.content_disposition().map(|disposition| format!("{:#?}", disposition))
}

/// Reads the header of a part without touching its payload.
pub fn read_header(field: &Field) -> (header: PartHeader)
    ensures
        header@ == (HeaderView {
            content_type: declared_content_type(field),
            content_disposition: declared_disposition(field),
        }),
{
    PartHeader::new(content_type_of(field), disposition_of(field))
}

} // verus!
