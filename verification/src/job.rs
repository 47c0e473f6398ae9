//! Job tracking: reading job records out of the status response, the
//! POST-then-GET query fallback, and the polling state machine that drives a
//! job to its terminal state while reporting fresh progress exactly once.

use vstd::prelude::*;
use crate::errors::{message_of, Error};
use crate::json::{json_parse, json_parse_of, obj_lookup, json_obj_get, JsonValue};
use crate::num::{dec_str_int, i64_to_dec};
use crate::scan::{first_idx, lemma_first_idx_is, lemma_first_idx_none};
use crate::text::{str_eq, trim_of, trim_str};

verus! {

/// One server-side job record, as far as the tracker reads it.  The
/// progress percentage is kept as the number's decimal text.
#[derive(Debug)]
pub struct JobInfo {
    pub id: i64,
    pub state: Option<String>,
    pub error: Option<String>,
    pub exception: Option<String>,
    pub progress_percent: Option<String>,
    pub progress_description: Option<String>,
}

/// The mathematical shape of a [`JobInfo`].
pub ghost struct JobInfoView {
    pub id: int,
    pub state: Option<Seq<char>>,
    pub error: Option<Seq<char>>,
    pub exception: Option<Seq<char>>,
    pub progress_percent: Option<Seq<char>>,
    pub progress_description: Option<Seq<char>>,
}

/// The view of an optional string.
pub open spec fn opt_view(o: Option<String>) -> Option<Seq<char>> {
    match o {
        Some(s) => Some(s@),
        None => None,
    }
}

impl View for JobInfo {
    type V = JobInfoView;

    open spec fn view(&self) -> JobInfoView {
        JobInfoView {
            id: self.id as int,
            state: opt_view(self.state),
            error: opt_view(self.error),
            exception: opt_view(self.exception),
            progress_percent: opt_view(self.progress_percent),
            progress_description: opt_view(self.progress_description),
        }
    }
}

impl JobInfo {
    /// A field-for-field copy.
    pub fn duplicate(&self) -> (r: JobInfo)
        ensures
            r@ == self@,
    {
        JobInfo {
            id: self.id,
            state: clone_opt(&self.state),
            error: clone_opt(&self.error),
            exception: clone_opt(&self.exception),
            progress_percent: clone_opt(&self.progress_percent),
            progress_description: clone_opt(&self.progress_description),
        }
    }
}

/// Copies an optional string.
fn clone_opt(o: &Option<String>) -> (r: Option<String>)
    ensures
        opt_view(r) == opt_view(*o),
{
    match o {
        Some(s) => Some(s.clone()),
        None => None,
    }
}

/// Whether two optional strings hold the same text.
fn opt_str_eq(a: &Option<String>, b: &Option<String>) -> (r: bool)
    ensures
        r == (opt_view(*a) == opt_view(*b)),
{
    match (a, b) {
        (Some(x), Some(y)) => str_eq(x.as_str(), y.as_str()),
        (None, None) => true,
        _ => false,
    }
}

/// The number member named `key`, read as its decimal text.
pub open spec fn num_text_member(fields: Seq<(String, JsonValue)>, key: Seq<char>) -> Option<
    Seq<char>,
> {
    match obj_lookup(fields, key) {
        Some(JsonValue::Int(i)) => Some(dec_str_int(i as int)),
        Some(JsonValue::NumText(s)) => Some(s@),
        _ => None,
    }
}

/// The string member named `key`.
pub open spec fn job_str_member(fields: Seq<(String, JsonValue)>, key: Seq<char>) -> Option<
    Seq<char>,
> {
    match obj_lookup(fields, key) {
        Some(JsonValue::Str(s)) => Some(s@),
        _ => None,
    }
}

/// The job record a JSON value describes: an object with a numeric `id`;
/// state, error and exception when present as strings; progress read out of
/// a nested `progress` object.
pub open spec fn job_info_of(v: JsonValue) -> Option<JobInfoView> {
    match v {
        JsonValue::Object(fs) => match obj_lookup(fs@, "id"@) {
            Some(JsonValue::Int(i)) => Some(
                JobInfoView {
                    id: i as int,
                    state: job_str_member(fs@, "state"@),
                    error: job_str_member(fs@, "error"@),
                    exception: job_str_member(fs@, "exception"@),
                    progress_percent: match obj_lookup(fs@, "progress"@) {
                        Some(JsonValue::Object(ps)) => num_text_member(ps@, "percent"@),
                        _ => None,
                    },
                    progress_description: match obj_lookup(fs@, "progress"@) {
                        Some(JsonValue::Object(ps)) => job_str_member(ps@, "description"@),
                        _ => None,
                    },
                },
            ),
            _ => None,
        },
        _ => None,
    }
}

/// Reads one JSON value as a job record, as [`job_info_of`] says.
pub fn parse_job_info(v: &JsonValue) -> (r: Option<JobInfo>)
    ensures
        match job_info_of(*v) {
            Some(jv) => r matches Some(j) && j@ == jv,
            None => r is None,
        },
{
    let fs = match v {
        JsonValue::Object(fs) => fs,
        _ => {
            return None;
        },
    };
    let id: i64 = match json_obj_get(fs, "id") {
        Some(JsonValue::Int(i)) => *i,
        _ => {
            return None;
        },
    };
    let state = match json_obj_get(fs, "state") {
        Some(JsonValue::Str(s)) => Some(s.clone()),
        _ => None,
    };
    let error = match json_obj_get(fs, "error") {
        Some(JsonValue::Str(s)) => Some(s.clone()),
        _ => None,
    };
    let exception = match json_obj_get(fs, "exception") {
        Some(JsonValue::Str(s)) => Some(s.clone()),
        _ => None,
    };
    let (progress_percent, progress_description) = match json_obj_get(fs, "progress") {
        Some(JsonValue::Object(ps)) => {
            let percent = match json_obj_get(ps, "percent") {
                Some(JsonValue::Int(i)) => Some(i64_to_dec(*i)),
                Some(JsonValue::NumText(s)) => Some(s.clone()),
                _ => None,
            };
            let desc = match json_obj_get(ps, "description") {
                Some(JsonValue::Str(s)) => Some(s.clone()),
                _ => None,
            };
            (percent, desc)
        },
        _ => (None, None),
    };
    Some(JobInfo { id, state, error, exception, progress_percent, progress_description })
}

/// Matches a JSON value that describes the requested job.
pub open spec fn job_match_pred(job_id: int) -> spec_fn(JsonValue) -> bool {
    |item: JsonValue|
        match job_info_of(item) {
            Some(j) => j.id == job_id,
            None => false,
        }
}

/// The record of job `job_id` in a response value: the first matching
/// element of an array, or the object itself.
pub open spec fn extract_job_of(v: JsonValue, job_id: int) -> Option<JobInfoView> {
    match v {
        JsonValue::Array(items) => match first_idx(items@, job_match_pred(job_id)) {
            Some(i) => job_info_of(items@[i]),
            None => None,
        },
        JsonValue::Object(_) => match job_info_of(v) {
            Some(j) => if j.id == job_id {
                Some(j)
            } else {
                None
            },
            None => None,
        },
        _ => None,
    }
}

/// Finds the requested job's record in a response value.
#[verifier::loop_isolation(false)]
pub fn extract_job(v: &JsonValue, job_id: i64) -> (r: Option<JobInfo>)
    ensures
        match extract_job_of(*v, job_id as int) {
            Some(jv) => r matches Some(j) && j@ == jv,
            None => r is None,
        },
{
    match v {
        JsonValue::Array(items) => {
            let n = items.len();
            let mut i: usize = 0;
            while i < n
                invariant
                    0 <= i <= n,
                    forall|j: int|
                        0 <= j < i ==> !(job_match_pred(job_id as int)(
                            #[trigger] items@[j],
                        )),
                decreases n - i,
            {
                match parse_job_info(&items[i]) {
                    Some(j) => {
                        if j.id == job_id {
                            proof {
                                lemma_first_idx_is(items@, job_match_pred(job_id as int), i as int);
                            }
                            return Some(j);
                        }
                    },
                    None => {},
                }
                i = i + 1;
            }
            proof {
                lemma_first_idx_none(items@, job_match_pred(job_id as int));
            }
            None
        },
        JsonValue::Object(_) => {
            match parse_job_info(v) {
                Some(j) => {
                    if j.id == job_id {
                        Some(j)
                    } else {
                        None
                    }
                },
                None => None,
            }
        },
        _ => None,
    }
}

/// Reads a job-status body: an unparseable body is a parse error carrying
/// the trimmed text; a parsed body without the requested record reports the
/// job as not found, distinctly from transport failure.
pub fn parse_job_response(text: &str, job_id: i64) -> (r: Result<JobInfo, Error>)
    ensures
        ({
            let t = trim_of(text@);
            match json_parse_of(t) {
                None => r matches Err(e) && e matches Error::ResponseParse { detail } && detail@
                    == t,
                Some(v) => match extract_job_of(v, job_id as int) {
                    Some(jv) => r matches Ok(j) && j@ == jv,
                    None => r matches Err(e) && e matches Error::JobNotFound { job_id: id } && id
                        == job_id,
                },
            }
        }),
{
    let trimmed = trim_str(text);
    match json_parse(trimmed) {
        None => Err(Error::ResponseParse { detail: String::from_str(trimmed) }),
        Some(v) => match extract_job(&v, job_id) {
            Some(j) => Ok(j),
            None => Err(Error::JobNotFound { job_id }),
        },
    }
}

/// Reads a whole job-status exchange: a non-success status is a hard API
/// error; a success body is searched for the requested record.
pub fn job_query_response(status: u16, body: &str, job_id: i64) -> (r: Result<JobInfo, Error>)
    ensures
        crate::responses::is_success_of(status) ==> ({
            let t = trim_of(body@);
            match json_parse_of(t) {
                None => r matches Err(e) && e matches Error::ResponseParse { detail } && detail@
                    == t,
                Some(v) => match extract_job_of(v, job_id as int) {
                    Some(jv) => r matches Ok(j) && j@ == jv,
                    None => r matches Err(e) && e matches Error::JobNotFound { job_id: id } && id
                        == job_id,
                },
            }
        }),
        !crate::responses::is_success_of(status) ==> (r matches Err(e) && e matches Error::Api {
            status: st,
            body: b,
        } && st == status && b@ == trim_of(body@)),
{
    if 200 <= status && status < 300 {
        parse_job_response(body, job_id)
    } else {
        Err(Error::Api { status, body: String::from_str(trim_str(body)) })
    }
}

/// Combines the two job-query attempts: a POST success stands; only a POST
/// failure lets the GET attempt answer; when both fail, the surfaced error
/// carries both diagnostics.
pub fn resolve_job_query(post: Result<JobInfo, Error>, get: Result<JobInfo, Error>) -> (r: Result<
    JobInfo,
    Error,
>)
    ensures
        post matches Ok(_) ==> r == post,
        post matches Err(pe) ==> ((get matches Ok(_) ==> r == get) && (get matches Err(ge) ==> (
        r matches Err(e) && e matches Error::JobQueryFailed { post_detail, get_detail }
            && post_detail@ == message_of(pe) && get_detail@ == message_of(ge)))),
{
    match post {
        Ok(j) => Ok(j),
        Err(pe) => match get {
            Ok(j) => Ok(j),
            Err(ge) => Err(
                Error::JobQueryFailed { post_detail: pe.message(), get_detail: ge.message() },
            ),
        },
    }
}

/// One progress report: percentage text and description, each optional.
#[derive(Debug)]
pub struct Progress {
    pub percent: Option<String>,
    pub description: Option<String>,
}

/// The mathematical shape of a [`Progress`].
pub ghost struct ProgressView {
    pub percent: Option<Seq<char>>,
    pub description: Option<Seq<char>>,
}

impl View for Progress {
    type V = ProgressView;

    open spec fn view(&self) -> ProgressView {
        ProgressView { percent: opt_view(self.percent), description: opt_view(self.description) }
    }
}

/// The view of an optional progress report.
pub open spec fn opt_progress_view(o: Option<Progress>) -> Option<ProgressView> {
    match o {
        Some(p) => Some(p@),
        None => None,
    }
}

/// The progress tuple of a job record.
pub open spec fn progress_of(j: JobInfoView) -> ProgressView {
    ProgressView { percent: j.progress_percent, description: j.progress_description }
}

/// Whether a progress tuple reports anything at all.
pub open spec fn has_progress(p: ProgressView) -> bool {
    p.percent is Some || p.description is Some
}

/// Whether a state string is a failed terminal state.
pub open spec fn is_failed_state(st: Option<Seq<char>>) -> bool {
    st == Some("FAILED"@) || st == Some("ABORTED"@)
}

/// The detail of a failed job: its error, else its exception, else a fixed
/// fallback; trimmed.
pub open spec fn fail_detail_of(j: JobInfoView) -> Seq<char> {
    trim_of(
        match j.error {
            Some(e) => e,
            None => match j.exception {
                Some(x) => x,
                None => "job failed"@,
            },
        },
    )
}

/// One step of the poll loop.
#[derive(Debug)]
pub enum JobStep {
    /// The job reached `SUCCESS`: the final record is handed back.
    Succeeded(JobInfo),
    /// The job reached `FAILED` or `ABORTED`: the error to surface.
    Failed(Error),
    /// Any other state: poll again after the fixed interval, after emitting
    /// `emit` (if any) and remembering `last` as the last reported progress.
    Pending { emit: Option<Progress>, last: Option<Progress> },
}

/// What one step of the state machine must yield on record `jv` with last
/// reported progress `lastv`: `SUCCESS` is terminal success; `FAILED` and
/// `ABORTED` are terminal failure with the record's detail; every other
/// state stays pending, reporting the progress tuple exactly when it
/// differs from the last reported one.
pub open spec fn job_step_spec(jv: JobInfoView, lastv: Option<ProgressView>, r: JobStep) -> bool {
    if jv.state == Some("SUCCESS"@) {
        r matches JobStep::Succeeded(out) && out@ == jv
    } else if is_failed_state(jv.state) {
        r matches JobStep::Failed(e) && e matches Error::JobFailed { job_id, detail } && job_id
            == jv.id && detail@ == fail_detail_of(jv)
    } else {
        let cur = progress_of(jv);
        if has_progress(cur) && lastv != Some(cur) {
            r matches JobStep::Pending { emit, last: l2 } && (emit matches Some(p) && p@ == cur)
                && (l2 matches Some(q) && q@ == cur)
        } else {
            r matches JobStep::Pending { emit, last: l2 } && emit is None && opt_progress_view(l2)
                == lastv
        }
    }
}

/// A terminal state never polls again: the step of a `SUCCESS`, `FAILED` or
/// `ABORTED` record is terminal, and of any other record is pending — so a
/// poll loop reaches exactly one terminal result.
pub proof fn lemma_terminal_states_are_terminal(
    jv: JobInfoView,
    lastv: Option<ProgressView>,
    r: JobStep,
)
    requires
        job_step_spec(jv, lastv, r),
    ensures
        (jv.state == Some("SUCCESS"@) || is_failed_state(jv.state)) <==> !(r
            matches JobStep::Pending { emit, last }),
{
}

/// Progress already reported is never reported again: a pending step whose
/// record carries exactly the last reported tuple emits nothing and keeps
/// the tuple — so each distinct tuple is emitted at most once in a run of
/// identical observations.
pub proof fn lemma_progress_emitted_once(jv: JobInfoView, p: ProgressView, r: JobStep)
    requires
        job_step_spec(jv, Some(p), r),
        jv.state != Some("SUCCESS"@),
        !is_failed_state(jv.state),
        progress_of(jv) == p,
    ensures
        r matches JobStep::Pending { emit, last } && emit is None && opt_progress_view(last)
            == Some(p),
{
}

/// Advances the polling state machine by one observed record, as
/// [`job_step_spec`] says.
pub fn job_poll_step(job: &JobInfo, last: &Option<Progress>) -> (r: JobStep)
    ensures
        job_step_spec(job@, opt_progress_view(*last), r),
{
    let terminal: u8 = match &job.state {
        Some(s) => {
            if str_eq(s.as_str(), "SUCCESS") {
                1
            } else if str_eq(s.as_str(), "FAILED") || str_eq(s.as_str(), "ABORTED") {
                2
            } else {
                0
            }
        },
        None => 0,
    };
    if terminal == 1 {
        return JobStep::Succeeded(job.duplicate());
    }
    if terminal == 2 {
        let raw = match &job.error {
            Some(e) => e.as_str(),
            None => match &job.exception {
                Some(x) => x.as_str(),
                None => "job failed",
            },
        };
        let detail = String::from_str(trim_str(raw));
        return JobStep::Failed(Error::JobFailed { job_id: job.id, detail });
    }
    let percent = clone_opt(&job.progress_percent);
    let description = clone_opt(&job.progress_description);
    let any = percent.is_some() || description.is_some();
    let differs = match last {
        Some(lp) => !(opt_str_eq(&lp.percent, &percent) && opt_str_eq(
            &lp.description,
            &description,
        )),
        None => true,
    };
    if any && differs {
        let emit = Progress { percent, description };
        let keep = Progress {
            percent: clone_opt(&emit.percent),
            description: clone_opt(&emit.description),
        };
        JobStep::Pending { emit: Some(emit), last: Some(keep) }
    } else {
        let kept = match last {
            Some(lp) => Some(
                Progress {
                    percent: clone_opt(&lp.percent),
                    description: clone_opt(&lp.description),
                },
            ),
            None => None,
        };
        JobStep::Pending { emit: None, last: kept }
    }
}

} // verus!
