use naslock::json::{to_json_text, JsonValue};
use naslock::responses::{lock_response, lock_result_from_json, parse_lock_response,
    parse_unlock_response, unlock_response, unlock_result_from_json};

#[test]
fn unlock_object_with_job_id_only() {
    let r = parse_unlock_response("{\"job_id\": 42}");
    assert_eq!(r.job_id, Some(42));
    assert!(r.unlocked.is_empty());
    assert!(r.failed.is_empty());
    assert!(r.message.is_none());
}

#[test]
fn lock_bare_boolean_sets_locked() {
    let r = parse_lock_response("true");
    assert!(r.locked);
    assert!(r.job_id.is_none());
    assert!(r.message.is_none());
}

#[test]
fn numeric_string_body_is_a_job_id_for_both_parsers() {
    let u = parse_unlock_response("\"17\"");
    assert_eq!(u.job_id, Some(17));
    assert!(u.message.is_none());
    let l = parse_lock_response("\"17\"");
    assert_eq!(l.job_id, Some(17));
    assert!(!l.locked);
    assert!(l.message.is_none());
}

#[test]
fn bare_number_body_is_a_job_id() {
    assert_eq!(parse_unlock_response(" 23 ").job_id, Some(23));
    assert_eq!(parse_lock_response("23").job_id, Some(23));
}

#[test]
fn empty_body_is_an_empty_result() {
    let r = parse_unlock_response("   ");
    assert!(r.job_id.is_none() && r.unlocked.is_empty() && r.failed.is_empty()
        && r.message.is_none());
    let l = parse_lock_response("");
    assert!(l.job_id.is_none() && !l.locked && l.message.is_none());
}

#[test]
fn unlock_object_reads_all_optional_members_together() {
    let body = "{\"job_id\": 7, \"unlocked\": [\"tank/a\", 5, \"tank/b\"], \
                \"failed\": {\"tank/c\": \"wrong key\", \"tank/d\": {\"err\": 1}}, \
                \"message\": \"partial\"}";
    let r = parse_unlock_response(body);
    assert_eq!(r.job_id, Some(7));
    assert_eq!(r.unlocked, vec!["tank/a".to_string(), "tank/b".to_string()]);
    assert_eq!(r.failed.len(), 2);
    assert_eq!(r.failed[0], ("tank/c".to_string(), "wrong key".to_string()));
    assert_eq!(r.failed[1], ("tank/d".to_string(), "{\"err\":1}".to_string()));
    assert_eq!(r.message.as_deref(), Some("partial"));
}

#[test]
fn non_numeric_string_body_becomes_the_message() {
    let r = parse_unlock_response("\"all done\"");
    assert!(r.job_id.is_none());
    assert_eq!(r.message.as_deref(), Some("all done"));
}

#[test]
fn unparseable_body_falls_back_to_raw_text() {
    let r = parse_unlock_response("  not json at all  ");
    assert!(r.job_id.is_none());
    assert_eq!(r.message.as_deref(), Some("not json at all"));
}

#[test]
fn other_json_shapes_are_stringified_into_the_message() {
    let r = parse_unlock_response("[1, \"x\"]");
    assert_eq!(r.message.as_deref(), Some("[1,\"x\"]"));
    let l = parse_lock_response("null");
    assert_eq!(l.message.as_deref(), Some("null"));
}

#[test]
fn lock_object_reads_locked_flag() {
    let l = parse_lock_response("{\"job_id\": 3, \"locked\": true, \"message\": \"ok\"}");
    assert_eq!(l.job_id, Some(3));
    assert!(l.locked);
    assert_eq!(l.message.as_deref(), Some("ok"));
}

#[test]
fn lock_textual_boolean_sets_locked() {
    let l = parse_lock_response("\" true \"");
    assert!(l.locked);
    let l2 = parse_lock_response("\"TRUE\"");
    assert!(!l2.locked);
    assert_eq!(l2.message.as_deref(), Some("TRUE"));
}

#[test]
fn big_number_body_becomes_the_message() {
    let r = parse_unlock_response("18446744073709551615");
    assert!(r.job_id.is_none());
    assert_eq!(r.message.as_deref(), Some("18446744073709551615"));
}

#[test]
fn non_success_status_is_a_hard_api_error() {
    let err = unlock_response(500, " boom ").unwrap_err();
    assert_eq!(err.message(), "TrueNAS API error (500): boom");
    let err = lock_response(404, "missing").unwrap_err();
    assert_eq!(err.message(), "TrueNAS API error (404): missing");
    assert!(unlock_response(200, "{\"job_id\": 1}").is_ok());
    assert!(lock_response(299, "true").is_ok());
}

#[test]
fn interpreters_work_on_handed_in_values() {
    let v = JsonValue::Object(vec![("job_id".to_string(), JsonValue::Int(42))]);
    let r = unlock_result_from_json(Some(v), "{\"job_id\": 42}");
    assert_eq!(r.job_id, Some(42));
    let l = lock_result_from_json(Some(JsonValue::Bool(true)), "true");
    assert!(l.locked);
    let f = unlock_result_from_json(None, "52");
    assert_eq!(f.job_id, Some(52));
}

#[test]
fn json_text_is_compact_and_escaped() {
    let v = JsonValue::Object(vec![
        ("a".to_string(), JsonValue::Array(vec![JsonValue::Null, JsonValue::Bool(false)])),
        ("b\n".to_string(), JsonValue::Str("say \"hi\"\\\u{1}".to_string())),
        ("c".to_string(), JsonValue::Int(-9223372036854775808)),
    ]);
    assert_eq!(
        to_json_text(&v),
        "{\"a\":[null,false],\"b\\n\":\"say \\\"hi\\\"\\\\\\u0001\",\"c\":-9223372036854775808}"
    );
}

#[test]
fn json_text_matches_outside_serializer() {
    let body = "{\"x\": [1, {\"y\": \"a\\tb\"}], \"z\": null}";
    let v: serde_json::Value = serde_json::from_str(body).unwrap();
    let expected = serde_json::to_string(&v).unwrap();
    let r = parse_unlock_response(&format!("[{}]", body));
    assert_eq!(r.message.as_deref(), Some(format!("[{}]", expected).as_str()));
}
