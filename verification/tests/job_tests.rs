use naslock::errors::Error;
use naslock::job::{extract_job, job_poll_step, job_query_response, parse_job_info,
    parse_job_response, resolve_job_query, JobInfo, JobStep, Progress};
use naslock::json::JsonValue;

fn job(id: i64, state: Option<&str>) -> JobInfo {
    JobInfo {
        id,
        state: state.map(|s| s.to_string()),
        error: None,
        exception: None,
        progress_percent: None,
        progress_description: None,
    }
}

#[test]
fn job_record_is_found_in_an_array_by_id() {
    let body = "[{\"id\": 16, \"state\": \"RUNNING\"}, {\"id\": 17, \"state\": \"SUCCESS\"}]";
    let j = parse_job_response(body, 17).unwrap();
    assert_eq!(j.id, 17);
    assert_eq!(j.state.as_deref(), Some("SUCCESS"));
}

#[test]
fn job_record_is_found_in_a_bare_object() {
    let j = parse_job_response("{\"id\": 9, \"state\": \"WAITING\"}", 9).unwrap();
    assert_eq!(j.id, 9);
    assert_eq!(j.state.as_deref(), Some("WAITING"));
}

#[test]
fn missing_record_is_job_not_found() {
    let err = parse_job_response("[{\"id\": 16}]", 17).unwrap_err();
    assert!(matches!(err, Error::JobNotFound { job_id: 17 }));
    assert_eq!(err.message(), "job 17 not found in response");
}

#[test]
fn unparseable_status_body_is_a_parse_error() {
    let err = parse_job_response("  <html>  ", 17).unwrap_err();
    assert!(matches!(err, Error::ResponseParse { .. }));
    assert_eq!(err.message(), "failed to parse job status: <html>");
}

#[test]
fn job_progress_is_read_from_the_nested_object() {
    let body = "{\"id\": 4, \"state\": \"RUNNING\", \
                \"progress\": {\"percent\": 42.5, \"description\": \"copying\"}}";
    let j = parse_job_response(body, 4).unwrap();
    assert_eq!(j.progress_percent.as_deref(), Some("42.5"));
    assert_eq!(j.progress_description.as_deref(), Some("copying"));
    let whole = parse_job_response("{\"id\": 4, \"progress\": {\"percent\": 80}}", 4).unwrap();
    assert_eq!(whole.progress_percent.as_deref(), Some("80"));
}

#[test]
fn job_error_and_exception_are_read_as_strings() {
    let v = JsonValue::Object(vec![
        ("id".to_string(), JsonValue::Int(3)),
        ("error".to_string(), JsonValue::Str("disk busy".to_string())),
        ("exception".to_string(), JsonValue::Null),
    ]);
    let j = parse_job_info(&v).unwrap();
    assert_eq!(j.error.as_deref(), Some("disk busy"));
    assert!(j.exception.is_none());
    assert!(extract_job(&v, 3).is_some());
    assert!(extract_job(&v, 4).is_none());
}

#[test]
fn non_success_job_status_is_an_api_error() {
    let err = job_query_response(502, "bad gateway", 1).unwrap_err();
    assert!(matches!(err, Error::Api { status: 502, .. }));
    assert!(job_query_response(200, "{\"id\": 1}", 1).is_ok());
}

#[test]
fn post_success_stands_without_the_get_attempt() {
    let r = resolve_job_query(Ok(job(1, None)), Err(Error::JobNotFound { job_id: 1 }));
    assert_eq!(r.unwrap().id, 1);
}

#[test]
fn get_result_answers_when_post_failed_structurally() {
    let post = Err(Error::Api { status: 405, body: "method not allowed".to_string() });
    let r = resolve_job_query(post, Ok(job(8, Some("SUCCESS"))));
    assert_eq!(r.unwrap().id, 8);
}

#[test]
fn both_failures_surface_both_diagnostics() {
    let post = Err(Error::Api { status: 405, body: "nope".to_string() });
    let get = Err(Error::JobNotFound { job_id: 6 });
    let err = resolve_job_query(post, get).unwrap_err();
    let msg = err.message();
    assert!(msg.contains("TrueNAS API error (405): nope"));
    assert!(msg.contains("job 6 not found in response"));
    assert_eq!(
        msg,
        "failed to query job status: post error: TrueNAS API error (405): nope; \
         get error: job 6 not found in response"
    );
}

fn step_states(states: &[Option<&str>]) -> (usize, usize) {
    let mut last: Option<Progress> = None;
    let mut terminals: usize = 0;
    let mut emissions: usize = 0;
    for st in states {
        let mut j = job(11, *st);
        j.progress_percent = Some("50".to_string());
        match job_poll_step(&j, &last) {
            JobStep::Succeeded(_) | JobStep::Failed(_) => {
                terminals += 1;
                break;
            },
            JobStep::Pending { emit, last: l2 } => {
                if emit.is_some() {
                    emissions += 1;
                }
                last = l2;
            },
        }
    }
    (terminals, emissions)
}

#[test]
fn state_sequence_yields_one_terminal_and_deduplicated_progress() {
    let (terminals, emissions) = step_states(&[None, Some("RUNNING"), Some("RUNNING"),
        Some("SUCCESS")]);
    assert_eq!(terminals, 1);
    // One distinct progress tuple, reported exactly once over three polls.
    assert_eq!(emissions, 1);
}

#[test]
fn progress_changes_are_each_reported_once() {
    let mut last: Option<Progress> = None;
    let mut emitted: Vec<Option<String>> = Vec::new();
    for pct in ["10", "10", "60", "60", "60"] {
        let mut j = job(2, Some("RUNNING"));
        j.progress_percent = Some(pct.to_string());
        match job_poll_step(&j, &last) {
            JobStep::Pending { emit, last: l2 } => {
                if let Some(p) = emit {
                    emitted.push(p.percent.clone());
                }
                last = l2;
            },
            _ => panic!("unexpected terminal"),
        }
    }
    assert_eq!(emitted, vec![Some("10".to_string()), Some("60".to_string())]);
}

#[test]
fn failed_state_uses_error_then_exception_then_fallback() {
    let mut j = job(5, Some("FAILED"));
    j.error = Some(" disk busy ".to_string());
    match job_poll_step(&j, &None) {
        JobStep::Failed(e) => assert_eq!(e.message(), "job 5 failed: disk busy"),
        _ => panic!("expected failure"),
    }
    let mut j2 = job(5, Some("ABORTED"));
    j2.exception = Some("trace".to_string());
    match job_poll_step(&j2, &None) {
        JobStep::Failed(e) => assert_eq!(e.message(), "job 5 failed: trace"),
        _ => panic!("expected failure"),
    }
    let j3 = job(5, Some("FAILED"));
    match job_poll_step(&j3, &None) {
        JobStep::Failed(e) => assert_eq!(e.message(), "job 5 failed: job failed"),
        _ => panic!("expected failure"),
    }
}

#[test]
fn success_returns_the_final_record() {
    let j = job(12, Some("SUCCESS"));
    match job_poll_step(&j, &None) {
        JobStep::Succeeded(out) => assert_eq!(out.id, 12),
        _ => panic!("expected success"),
    }
}

#[test]
fn unknown_states_keep_polling() {
    for st in [None, Some("WAITING"), Some("RUNNING"), Some("success")] {
        let j = job(1, st);
        assert!(matches!(job_poll_step(&j, &None), JobStep::Pending { .. }));
    }
}
