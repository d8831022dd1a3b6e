//! Core of a single-threaded HTTP/1.1 file-sharing server: request
//! decoding, byte ranges, path containment, the per-connection state
//! machine and a streaming multipart upload parser.

pub mod search;
pub mod range;
pub mod text;
pub mod status;
pub mod multipart;
pub mod post_buffer;
pub mod request;
pub mod connection;
pub mod history;
