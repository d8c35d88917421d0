//! The record kept for each part of a multipart body.

use vstd::prelude::*;

verus! {

/// What a part declares about itself before its payload is read.
#[derive(Debug, Clone, PartialEq, Eq)]
pub struct PartHeader {
    /// The declared MIME type.
    pub content_type: String,
    /// A description of the disposition header; `None` when the part has none.
    pub content_disposition: Option<String>,
}

/// The mathematical value of a [`PartHeader`].
pub struct HeaderView {
    pub content_type: Seq<char>,
    pub content_disposition: Option<Seq<char>>,
}

/// One part of a multipart body, fully read.
#[derive(Debug, Clone, PartialEq, Eq)]
pub struct ReceivedPart {
    /// The declared MIME type.
    pub content_type: String,
    /// A description of the disposition header; `None` when the part has none.
    pub content_disposition: Option<String>,
    /// The payload: every chunk of the part, in arrival order.
    pub content_data: Vec<u8>,
}

/// The mathematical value of a [`ReceivedPart`].
pub struct PartView {
    pub content_type: Seq<char>,
    pub content_disposition: Option<Seq<char>>,
    pub content_data: Seq<u8>,
}

/// The characters of an optional string.
pub open spec fn text_of(s: Option<String>) -> Option<Seq<char>> {
    match s {
        Some(t) => Some(t@),
        None => None,
    }
}

impl View for PartHeader {
    type V = HeaderView;

    open spec fn view(&self) -> HeaderView {
        HeaderView {
            content_type: self.content_type@,
            content_disposition: text_of(self.content_disposition),
        }
    }
}

impl View for ReceivedPart {
    type V = PartView;

    open spec fn view(&self) -> PartView {
        PartView {
            content_type: self.content_type@,
            content_disposition: text_of(self.content_disposition),
            content_data: self.content_data@,
        }
    }
}

/// The part that a header and a payload make together.
pub open spec fn assembled(header: HeaderView, data: Seq<u8>) -> PartView {
    PartView {
        content_type: header.content_type,
        content_disposition: header.content_disposition,
        content_data: data,
    }
}

/// The values of a list of parts, in the same order.
pub open spec fn part_views(parts: Seq<ReceivedPart>) -> Seq<PartView> {
    Seq::new(parts.len(), |i: int| parts[i]@)
}

impl PartHeader {
    /// A header with the given content type and optional disposition.
    pub fn new(content_type: String, content_disposition: Option<String>) -> (header: PartHeader)
        ensures
            header.content_type == content_type,
            header.content_disposition == content_disposition,
    {
        PartHeader { content_type, content_disposition }
    }
}

impl ReceivedPart {
    /// Joins a header with the payload that followed it.
    pub fn assemble(header: PartHeader, data: Vec<u8>) -> (part: ReceivedPart)
        ensures
            part@ == assembled(header@, data@),
            part.content_type == header.content_type,
            part.content_disposition == header.content_disposition,
            part.content_data == data,
    {
        ReceivedPart {
            content_type: header.content_type,
            content_disposition: header.content_disposition,
            content_data: data,
        }
    }

    /// The number of payload bytes.
    pub fn content_length(&self) -> (n: usize)
        ensures
            n == self@.content_data.len(),
    {
        self.content_data.len()
    }
}

} // verus!
