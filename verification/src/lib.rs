//! Building blocks for a signed Kinesis `PutRecord` HTTP request: settings
//! parsing, endpoint derivation, JSON body construction and SigV4 header
//! generation.

pub mod b64;
pub mod body;
pub mod headers;
pub mod json;
pub mod settings;

pub use settings::Settings;
