//! Verified core of a credential-driven dataset unlock tool.
//!
//! The library resolves entries of a decrypted secret store through a small
//! selector grammar, builds the JSON requests of the remote storage API's
//! dataset unlock/lock workflow, parses the loosely shaped responses the API
//! returns, and drives the polling state machine that tracks an asynchronous
//! server-side job to completion.  All I/O (terminal, files, HTTP) lives
//! outside the library; callers hand in plain values and get plain values
//! back.

pub mod config;
pub mod entry;
pub mod errors;
pub mod job;
pub mod json;
pub mod num;
pub mod responses;
pub mod scan;
pub mod selector;
pub mod text;
pub mod truenas;
pub mod workflow;
