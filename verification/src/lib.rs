//! Transpo: an ephemeral, end-to-end encrypted file sharing service.
//!
//! This crate holds the verified core of the service: URL-safe base64,
//! the streaming multipart form parser, upload accounting (quotas, storage
//! and size limits), the segment framing of encrypted uploads, the Zip
//! archive records, and the parsing of configuration, command line
//! arguments and query strings.
pub mod b64;
pub mod multipart_form;
pub mod text;
pub mod clock;
pub mod rate_limit;
pub mod storage_limit;
pub mod quotas;
pub mod constants;
pub mod files;
pub mod zip;
pub mod config;

pub mod strs;
pub mod upload;
pub mod form_parser;
pub mod download;
pub mod translations;
pub mod pages;
pub mod client;
pub mod random;
pub mod concurrency;
