//! Verified core of a command-line client that fetches a remote book's
//! configuration metadata over HTTP and prints it as pretty JSON.
//!
//! The library holds everything the program decides or computes: candidate
//! URL construction with ordered fallback, success classification of HTTP
//! status codes, the attempt-recording runner with its aggregated failure
//! report, and the JSON document model with its pretty-printer. The thin
//! binary around it performs the argument parsing, environment lookup and
//! network I/O, and hands the library plain values.

pub mod json;
pub mod runner;
pub mod strutil;
pub mod textspec;
pub mod urls;
