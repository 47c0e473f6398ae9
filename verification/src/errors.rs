//! The error taxonomy of the library.  Every failure carries the context a
//! caller needs for one actionable message; `message` renders it.

use vstd::prelude::*;
use crate::num::{dec_str_int, dec_str_nat, i64_to_dec, u64_to_dec};

verus! {

/// Everything that can go wrong between selector resolution and job
/// completion.
#[derive(Debug)]
pub enum Error {
    /// No entry of the store matches the selector.
    EntryNotFound { selector: String },
    /// The entry misses a required field.
    MissingField { field: String, entry: String },
    /// A resolved secret is empty after trimming.
    EmptySecret { label: String },
    /// The configured host does not form a valid base URL.
    InvalidHost,
    /// The HTTP transport failed before a status was received.
    Transport { detail: String },
    /// The API answered with a non-success status.
    Api { status: u16, body: String },
    /// A job-status response body could not be understood.
    ResponseParse { detail: String },
    /// The job-status response holds no record of the requested job.
    JobNotFound { job_id: i64 },
    /// The tracked job reached a failed terminal state.
    JobFailed { job_id: i64, detail: String },
    /// Both the POST and the GET form of the job query failed.
    JobQueryFailed { post_detail: String, get_detail: String },
}

/// The rendered text of each error.
pub open spec fn message_of(e: Error) -> Seq<char> {
    match e {
        Error::EntryNotFound { selector } => "KeePass entry not found: "@ + selector@,
        Error::MissingField { field, entry } => "missing field '"@ + field@
            + "' in KeePass entry "@ + entry@,
        Error::EmptySecret { label } => "empty secret for "@ + label@,
        Error::InvalidHost => "invalid NAS host URL"@,
        Error::Transport { detail } => detail@,
        Error::Api { status, body } => "TrueNAS API error ("@ + dec_str_nat(status as nat) + "): "@
            + body@,
        Error::ResponseParse { detail } => "failed to parse job status: "@ + detail@,
        Error::JobNotFound { job_id } => "job "@ + dec_str_int(job_id as int)
            + " not found in response"@,
        Error::JobFailed { job_id, detail } => "job "@ + dec_str_int(job_id as int) + " failed: "@
            + detail@,
        Error::JobQueryFailed { post_detail, get_detail } => "failed to query job status: post error: "@
            + post_detail@ + "; get error: "@ + get_detail@,
    }
}

impl Error {
    /// Renders the error as one human-readable line.
    pub fn message(&self) -> (r: String)
        ensures
            r@ == message_of(*self),
    {
        match self {
            Error::EntryNotFound { selector } => String::from_str(
                "KeePass entry not found: ",
            ).concat(selector.as_str()),
            Error::MissingField { field, entry } => String::from_str("missing field '").concat(
                field.as_str(),
            ).concat("' in KeePass entry ").concat(entry.as_str()),
            Error::EmptySecret { label } => String::from_str("empty secret for ").concat(
                label.as_str(),
            ),
            Error::InvalidHost => String::from_str("invalid NAS host URL"),
            Error::Transport { detail } => detail.clone(),
            Error::Api { status, body } => String::from_str("TrueNAS API error (").concat(
                u64_to_dec(*status as u64).as_str(),
            ).concat("): ").concat(body.as_str()),
            Error::ResponseParse { detail } => String::from_str(
                "failed to parse job status: ",
            ).concat(detail.as_str()),
            Error::JobNotFound { job_id } => String::from_str("job ").concat(
                i64_to_dec(*job_id).as_str(),
            ).concat(" not found in response"),
            Error::JobFailed { job_id, detail } => String::from_str("job ").concat(
                i64_to_dec(*job_id).as_str(),
            ).concat(" failed: ").concat(detail.as_str()),
            Error::JobQueryFailed { post_detail, get_detail } => String::from_str(
                "failed to query job status: post error: ",
            ).concat(post_detail.as_str()).concat("; get error: ").concat(get_detail.as_str()),
        }
    }
}

} // verus!
