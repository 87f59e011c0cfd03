//! Conditional-GET and byte-range negotiation for serving a single file.
//!
//! The library decides, from a file's metadata, its serving configuration and
//! the request's validation headers, which response to send: a precondition
//! failure, "not modified", a byte window of the file, or the whole file, with
//! the headers that go with each.

pub mod text;
pub mod validator;
pub mod range;
pub mod named;
pub mod laws;

pub use text::{push_dec, push_hex};
pub use validator::{EntityTag, FileMeta, Timestamp};
pub use range::{parse_range, ByteRange, RangeError};
pub use named::{
    any_match, content_type_header, none_match, Body, ContentDisposition, Encoding, Flags,
    NamedFile, NamedFileError, NamedFileService, RangeHeader, RequestConditionals, Response,
    TagList,
};
