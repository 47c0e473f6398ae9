//! Tolerant interpretation of the API's unlock and lock responses.  The
//! server's body shape varies by version: an object, a bare number, a
//! numeric string, a bare boolean, or anything else; every shape is given an
//! explicit reading and the rest is coerced to a message.

use vstd::prelude::*;
use crate::errors::Error;
use crate::json::{json_parse, json_parse_of, json_text_of, obj_lookup, to_json_text, JsonValue,
    json_obj_get};
use crate::num::{parse_bool, parse_bool_of, parse_i64, parse_i64_of};
use crate::text::{trim_of, trim_str};

verus! {

/// What an unlock call reported: all fields are independently optional and
/// may co-occur.
#[derive(Debug)]
pub struct UnlockResult {
    pub job_id: Option<i64>,
    pub unlocked: Vec<String>,
    pub failed: Vec<(String, String)>,
    pub message: Option<String>,
}

/// The mathematical shape of an [`UnlockResult`].
pub ghost struct UnlockResultView {
    pub job_id: Option<int>,
    pub unlocked: Seq<Seq<char>>,
    pub failed: Seq<(Seq<char>, Seq<char>)>,
    pub message: Option<Seq<char>>,
}

impl View for UnlockResult {
    type V = UnlockResultView;

    open spec fn view(&self) -> UnlockResultView {
        UnlockResultView {
            job_id: match self.job_id {
                Some(i) => Some(i as int),
                None => None,
            },
            unlocked: self.unlocked@.map_values(|s: String| s@),
            failed: self.failed@.map_values(|p: (String, String)| (p.0@, p.1@)),
            message: match self.message {
                Some(m) => Some(m@),
                None => None,
            },
        }
    }
}

/// The reading of an empty or absent body: nothing reported.
pub open spec fn empty_unlock_view() -> UnlockResultView {
    UnlockResultView {
        job_id: None,
        unlocked: Seq::empty(),
        failed: Seq::empty(),
        message: None,
    }
}

impl Default for UnlockResult {
    /// An empty result: no job, nothing unlocked, nothing failed, no text.
    fn default() -> (r: Self)
        ensures
            r@ == empty_unlock_view(),
    {
        let r = UnlockResult { job_id: None, unlocked: Vec::new(), failed: Vec::new(), message: None };
        proof {
            assert(r@.unlocked =~= Seq::<Seq<char>>::empty());
            assert(r@.failed =~= Seq::<(Seq<char>, Seq<char>)>::empty());
        }
        r
    }
}

/// What a lock call reported.
#[derive(Debug)]
pub struct LockResult {
    pub job_id: Option<i64>,
    pub locked: bool,
    pub message: Option<String>,
}

/// The mathematical shape of a [`LockResult`].
pub ghost struct LockResultView {
    pub job_id: Option<int>,
    pub locked: bool,
    pub message: Option<Seq<char>>,
}

impl View for LockResult {
    type V = LockResultView;

    open spec fn view(&self) -> LockResultView {
        LockResultView {
            job_id: match self.job_id {
                Some(i) => Some(i as int),
                None => None,
            },
            locked: self.locked,
            message: match self.message {
                Some(m) => Some(m@),
                None => None,
            },
        }
    }
}

/// The reading of an empty or absent lock body.
pub open spec fn empty_lock_view() -> LockResultView {
    LockResultView { job_id: None, locked: false, message: None }
}

impl Default for LockResult {
    /// An empty result: no job, not locked, no text.
    fn default() -> (r: Self)
        ensures
            r@ == empty_lock_view(),
    {
        LockResult { job_id: None, locked: false, message: None }
    }
}

/// The `job_id` member, when it is a number with an exact `i64` value.
pub open spec fn job_id_member(fields: Seq<(String, JsonValue)>) -> Option<int> {
    match obj_lookup(fields, "job_id"@) {
        Some(JsonValue::Int(i)) => Some(i as int),
        _ => None,
    }
}

/// The string member named `key`, if present as a string.
pub open spec fn str_member(fields: Seq<(String, JsonValue)>, key: Seq<char>) -> Option<Seq<char>> {
    match obj_lookup(fields, key) {
        Some(JsonValue::Str(s)) => Some(s@),
        _ => None,
    }
}

/// The strings among `items`, in order; other elements are skipped.
pub open spec fn str_items(items: Seq<JsonValue>) -> Seq<Seq<char>>
    decreases items.len(),
{
    if items.len() == 0 {
        Seq::empty()
    } else {
        str_items(items.drop_last()) + (match items.last() {
            JsonValue::Str(s) => seq![s@],
            _ => Seq::empty(),
        })
    }
}

/// The `unlocked` member read as a list of names.
pub open spec fn unlocked_member(fields: Seq<(String, JsonValue)>) -> Seq<Seq<char>> {
    match obj_lookup(fields, "unlocked"@) {
        Some(JsonValue::Array(items)) => str_items(items@),
        _ => Seq::empty(),
    }
}

/// A failure reason: the string itself, or the compact JSON text of a
/// non-string value.
pub open spec fn reason_text(v: JsonValue) -> Seq<char> {
    match v {
        JsonValue::Str(s) => s@,
        _ => json_text_of(v),
    }
}

/// The members of a `failed` object as (name, reason) pairs, in order.
pub open spec fn failed_items(fields: Seq<(String, JsonValue)>) -> Seq<(Seq<char>, Seq<char>)>
    decreases fields.len(),
{
    if fields.len() == 0 {
        Seq::empty()
    } else {
        failed_items(fields.drop_last()).push(
            (fields.last().0@, reason_text(fields.last().1)),
        )
    }
}

/// The `failed` member read as (name, reason) pairs.
pub open spec fn failed_member(fields: Seq<(String, JsonValue)>) -> Seq<(Seq<char>, Seq<char>)> {
    match obj_lookup(fields, "failed"@) {
        Some(JsonValue::Object(fs)) => failed_items(fs@),
        _ => Seq::empty(),
    }
}

/// The reading of an unlock body: an object is read member-wise; a number or
/// a numeric string is a job id; any other shape is coerced to a message.
/// `trimmed` is the trimmed body, read directly when no JSON value parsed.
pub open spec fn unlock_result_of(parsed: Option<JsonValue>, trimmed: Seq<char>)
    -> UnlockResultView {
    match parsed {
        Some(JsonValue::Object(fs)) => UnlockResultView {
            job_id: job_id_member(fs@),
            unlocked: unlocked_member(fs@),
            failed: failed_member(fs@),
            message: str_member(fs@, "message"@),
        },
        Some(JsonValue::Int(i)) => UnlockResultView { job_id: Some(i as int), ..empty_unlock_view() },
        Some(JsonValue::NumText(s)) => UnlockResultView {
            message: Some(s@),
            ..empty_unlock_view()
        },
        Some(JsonValue::Str(s)) => match parse_i64_of(trim_of(s@)) {
            Some(i) => UnlockResultView { job_id: Some(i as int), ..empty_unlock_view() },
            None => UnlockResultView { message: Some(s@), ..empty_unlock_view() },
        },
        Some(other) => UnlockResultView {
            message: Some(json_text_of(other)),
            ..empty_unlock_view()
        },
        None => match parse_i64_of(trimmed) {
            Some(i) => UnlockResultView { job_id: Some(i as int), ..empty_unlock_view() },
            None => UnlockResultView { message: Some(trimmed), ..empty_unlock_view() },
        },
    }
}

/// The reading of a whole unlock body text.
pub open spec fn parse_unlock_response_of(text: Seq<char>) -> UnlockResultView {
    let t = trim_of(text);
    if t.len() == 0 {
        empty_unlock_view()
    } else {
        unlock_result_of(json_parse_of(t), t)
    }
}

/// Collects the strings of `items`, skipping other elements.
fn collect_str_items(items: &Vec<JsonValue>) -> (r: Vec<String>)
    ensures
        r@.map_values(|s: String| s@) == str_items(items@),
{
    let n = items.len();
    let mut out: Vec<String> = Vec::new();
    proof {
        assert(out@.map_values(|s: String| s@) =~= str_items(items@.subrange(0, 0)));
    }
    let mut i: usize = 0;
    while i < n
        invariant
            0 <= i <= n,
            n == items@.len(),
            out@.map_values(|s: String| s@) == str_items(items@.subrange(0, i as int)),
        decreases n - i,
    {
        proof {
            let p = items@.subrange(0, i + 1);
            assert(p.drop_last() =~= items@.subrange(0, i as int));
            assert(p.last() == items@[i as int]);
        }
        match &items[i] {
            JsonValue::Str(s) => {
                out.push(s.clone());
            },
            _ => {},
        }
        i = i + 1;
        proof {
            assert(out@.map_values(|s: String| s@) =~= str_items(items@.subrange(0, i as int)));
        }
    }
    proof {
        assert(items@.subrange(0, n as int) =~= items@);
    }
    out
}

/// Collects the (name, reason) pairs of a `failed` object.
fn collect_failed_items(fields: &Vec<(String, JsonValue)>) -> (r: Vec<(String, String)>)
    ensures
        r@.map_values(|p: (String, String)| (p.0@, p.1@)) == failed_items(fields@),
{
    let n = fields.len();
    let mut out: Vec<(String, String)> = Vec::new();
    proof {
        assert(out@.map_values(|p: (String, String)| (p.0@, p.1@)) =~= failed_items(
            fields@.subrange(0, 0),
        ));
    }
    let mut i: usize = 0;
    while i < n
        invariant
            0 <= i <= n,
            n == fields@.len(),
            out@.map_values(|p: (String, String)| (p.0@, p.1@)) == failed_items(
                fields@.subrange(0, i as int),
            ),
        decreases n - i,
    {
        proof {
            let p = fields@.subrange(0, i + 1);
            assert(p.drop_last() =~= fields@.subrange(0, i as int));
            assert(p.last() == fields@[i as int]);
        }
        let name = fields[i].0.clone();
        let reason = match &fields[i].1 {
            JsonValue::Str(s) => s.clone(),
            other => to_json_text(other),
        };
        out.push((name, reason));
        i = i + 1;
        proof {
            assert(out@.map_values(|p: (String, String)| (p.0@, p.1@)) =~= failed_items(
                fields@.subrange(0, i as int),
            ));
        }
    }
    proof {
        assert(fields@.subrange(0, n as int) =~= fields@);
    }
    out
}

/// Reads one parsed unlock body, whatever its shape; `trimmed` is the
/// trimmed body text, read directly when nothing parsed.
pub fn unlock_result_from_json(parsed: Option<JsonValue>, trimmed: &str) -> (r: UnlockResult)
    ensures
        r@ == unlock_result_of(parsed, trimmed@),
{
    match parsed {
        Some(JsonValue::Object(fs)) => {
            let job_id = match json_obj_get(&fs, "job_id") {
                Some(JsonValue::Int(i)) => Some(*i),
                _ => None,
            };
            let unlocked = match json_obj_get(&fs, "unlocked") {
                Some(JsonValue::Array(items)) => collect_str_items(items),
                _ => Vec::new(),
            };
            let failed = match json_obj_get(&fs, "failed") {
                Some(JsonValue::Object(inner)) => collect_failed_items(inner),
                _ => Vec::new(),
            };
            let message = match json_obj_get(&fs, "message") {
                Some(JsonValue::Str(s)) => Some(s.clone()),
                _ => None,
            };
            let r = UnlockResult { job_id, unlocked, failed, message };
            proof {
                assert(Seq::<String>::empty().map_values(|s: String| s@) =~= Seq::<
                    Seq<char>,
                >::empty());
                assert(Seq::<(String, String)>::empty().map_values(
                    |p: (String, String)| (p.0@, p.1@),
                ) =~= Seq::<(Seq<char>, Seq<char>)>::empty());
            }
            r
        },
        Some(JsonValue::Int(i)) => {
            let mut r = UnlockResult::default();
            r.job_id = Some(i);
            r
        },
        Some(JsonValue::NumText(s)) => {
            let mut r = UnlockResult::default();
            r.message = Some(s);
            r
        },
        Some(JsonValue::Str(s)) => {
            let mut r = UnlockResult::default();
            match parse_i64(trim_str(s.as_str())) {
                Some(i) => {
                    r.job_id = Some(i);
                },
                None => {
                    r.message = Some(s);
                },
            }
            r
        },
        Some(other) => {
            let mut r = UnlockResult::default();
            r.message = Some(to_json_text(&other));
            r
        },
        None => {
            let mut r = UnlockResult::default();
            match parse_i64(trimmed) {
                Some(i) => {
                    r.job_id = Some(i);
                },
                None => {
                    r.message = Some(String::from_str(trimmed));
                },
            }
            r
        },
    }
}

/// Reads an unlock body text: an empty body is an empty result; otherwise
/// the parsed shape decides, with a raw number or the raw text as fallback.
pub fn parse_unlock_response(text: &str) -> (r: UnlockResult)
    ensures
        r@ == parse_unlock_response_of(text@),
{
    let trimmed = trim_str(text);
    if trimmed.unicode_len() == 0 {
        UnlockResult::default()
    } else {
        unlock_result_from_json(json_parse(trimmed), trimmed)
    }
}

/// The `locked` member, when it is a boolean.
pub open spec fn locked_member(fields: Seq<(String, JsonValue)>) -> bool {
    match obj_lookup(fields, "locked"@) {
        Some(JsonValue::Bool(b)) => b,
        _ => false,
    }
}

/// The reading of a lock body: as for unlock, with a bare or textual
/// boolean additionally read as the `locked` flag.
pub open spec fn lock_result_of(parsed: Option<JsonValue>, trimmed: Seq<char>) -> LockResultView {
    match parsed {
        Some(JsonValue::Object(fs)) => LockResultView {
            job_id: job_id_member(fs@),
            locked: locked_member(fs@),
            message: str_member(fs@, "message"@),
        },
        Some(JsonValue::Bool(b)) => LockResultView { locked: b, ..empty_lock_view() },
        Some(JsonValue::Int(i)) => LockResultView { job_id: Some(i as int), ..empty_lock_view() },
        Some(JsonValue::NumText(s)) => LockResultView { message: Some(s@), ..empty_lock_view() },
        Some(JsonValue::Str(s)) => match parse_i64_of(trim_of(s@)) {
            Some(i) => LockResultView { job_id: Some(i as int), ..empty_lock_view() },
            None => match parse_bool_of(trim_of(s@)) {
                Some(b) => LockResultView { locked: b, ..empty_lock_view() },
                None => LockResultView { message: Some(s@), ..empty_lock_view() },
            },
        },
        Some(other) => LockResultView { message: Some(json_text_of(other)), ..empty_lock_view() },
        None => match parse_i64_of(trimmed) {
            Some(i) => LockResultView { job_id: Some(i as int), ..empty_lock_view() },
            None => match parse_bool_of(trimmed) {
                Some(b) => LockResultView { locked: b, ..empty_lock_view() },
                None => LockResultView { message: Some(trimmed), ..empty_lock_view() },
            },
        },
    }
}

/// The reading of a whole lock body text.
pub open spec fn parse_lock_response_of(text: Seq<char>) -> LockResultView {
    let t = trim_of(text);
    if t.len() == 0 {
        empty_lock_view()
    } else {
        lock_result_of(json_parse_of(t), t)
    }
}

/// Reads one parsed lock body, whatever its shape.
pub fn lock_result_from_json(parsed: Option<JsonValue>, trimmed: &str) -> (r: LockResult)
    ensures
        r@ == lock_result_of(parsed, trimmed@),
{
    match parsed {
        Some(JsonValue::Object(fs)) => {
            let job_id = match json_obj_get(&fs, "job_id") {
                Some(JsonValue::Int(i)) => Some(*i),
                _ => None,
            };
            let locked = match json_obj_get(&fs, "locked") {
                Some(JsonValue::Bool(b)) => *b,
                _ => false,
            };
            let message = match json_obj_get(&fs, "message") {
                Some(JsonValue::Str(s)) => Some(s.clone()),
                _ => None,
            };
            LockResult { job_id, locked, message }
        },
        Some(JsonValue::Bool(b)) => {
            let mut r = LockResult::default();
            r.locked = b;
            r
        },
        Some(JsonValue::Int(i)) => {
            let mut r = LockResult::default();
            r.job_id = Some(i);
            r
        },
        Some(JsonValue::NumText(s)) => {
            let mut r = LockResult::default();
            r.message = Some(s);
            r
        },
        Some(JsonValue::Str(s)) => {
            let mut r = LockResult::default();
            let t = trim_str(s.as_str());
            match parse_i64(t) {
                Some(i) => {
                    r.job_id = Some(i);
                },
                None => {
                    match parse_bool(t) {
                        Some(b) => {
                            r.locked = b;
                        },
                        None => {
                            r.message = Some(s);
                        },
                    }
                },
            }
            r
        },
        Some(other) => {
            let mut r = LockResult::default();
            r.message = Some(to_json_text(&other));
            r
        },
        None => {
            let mut r = LockResult::default();
            match parse_i64(trimmed) {
                Some(i) => {
                    r.job_id = Some(i);
                },
                None => {
                    match parse_bool(trimmed) {
                        Some(b) => {
                            r.locked = b;
                        },
                        None => {
                            r.message = Some(String::from_str(trimmed));
                        },
                    }
                },
            }
            r
        },
    }
}

/// Reads a lock body text.
pub fn parse_lock_response(text: &str) -> (r: LockResult)
    ensures
        r@ == parse_lock_response_of(text@),
{
    let trimmed = trim_str(text);
    if trimmed.unicode_len() == 0 {
        LockResult::default()
    } else {
        lock_result_from_json(json_parse(trimmed), trimmed)
    }
}

/// Whether a status is in the success range.
pub open spec fn is_success_of(status: u16) -> bool {
    200 <= status < 300
}

/// Reads a whole unlock exchange: a non-success status is a hard API error
/// carrying the status and the trimmed body; a success body is read
/// tolerantly.
pub fn unlock_response(status: u16, body: &str) -> (r: Result<UnlockResult, Error>)
    ensures
        is_success_of(status) ==> (r matches Ok(u) && u@ == parse_unlock_response_of(body@)),
        !is_success_of(status) ==> (r matches Err(e) && e matches Error::Api {
            status: st,
            body: b,
        } && st == status && b@ == trim_of(body@)),
{
    if 200 <= status && status < 300 {
        Ok(parse_unlock_response(body))
    } else {
        Err(Error::Api { status, body: String::from_str(trim_str(body)) })
    }
}

/// Reads a whole lock exchange, as [`unlock_response`] does.
pub fn lock_response(status: u16, body: &str) -> (r: Result<LockResult, Error>)
    ensures
        is_success_of(status) ==> (r matches Ok(u) && u@ == parse_lock_response_of(body@)),
        !is_success_of(status) ==> (r matches Err(e) && e matches Error::Api {
            status: st,
            body: b,
        } && st == status && b@ == trim_of(body@)),
{
    if 200 <= status && status < 300 {
        Ok(parse_lock_response(body))
    } else {
        Err(Error::Api { status, body: String::from_str(trim_str(body)) })
    }
}

} // verus!
