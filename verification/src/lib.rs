//! In-memory decoding of multipart form submissions and rendering of the
//! received parts.
//!
//! The library holds the decisions of a small upload endpoint: how the chunks
//! of a part become its payload, how the events of a multipart body become an
//! ordered list of received parts, and how that list is shown to the caller.
//! Reading the body from the network is left to the program around it.
//!
//! - [`part`]: the record kept for each part.
//! - [`field`]: reading a part's header from the field of the multipart reader.
//! - [`payload`]: joining the chunks of a part into its payload.
//! - [`decoder`]: the state machine that turns transport events into parts.
//! - [`submission`]: what decoding makes of a body as it was sent.
//! - [`render`], [`structured`]: the textual listing and the JSON document.
//! - [`handler`]: the response to one request.
//! - [`address`], [`config`]: the address to bind to and the log filter.
//! - [`sequence`], [`text`]: joining sequences, writing numbers.

pub mod address;
pub mod config;
pub mod decoder;
pub mod error;
pub mod field;
pub mod handler;
pub mod part;
pub mod payload;
pub mod render;
pub mod sequence;
pub mod structured;
pub mod submission;
pub mod text;
