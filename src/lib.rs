//! Decoding of a line-oriented inertial sensor protocol: line framing, record
//! parsing, sample assembly and rate-limited status reporting.
pub mod aggregate;
pub mod error;
pub mod framer;
pub mod ingest;
pub mod parsing;
pub mod throttle;
pub mod time;
