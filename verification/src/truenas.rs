//! Request construction for the remote storage API: base-URL normalization,
//! the authentication strategy, and the exact bodies of the unlock, lock and
//! job-query calls.

use vstd::prelude::*;
use crate::errors::Error;
use crate::json::{json_str_text, json_str_exec};
use crate::num::{dec_str_int, i64_to_dec};
use crate::text::{has_prefix, str_has_prefix, trim_of, trim_str};

verus! {

/// The secret a dataset is unlocked with: exactly one of the two forms.
#[derive(Clone, Copy)]
pub enum UnlockSecret<'a> {
    Passphrase(&'a str),
    Key(&'a str),
}

/// The unlock call's option flags.
#[derive(Clone, Copy)]
pub struct UnlockOptions {
    pub recursive: bool,
    pub force: bool,
    pub toggle_attachments: bool,
}

/// The credential the API calls authenticate with.
#[derive(Clone, Copy)]
pub enum Auth<'a> {
    Basic { username: &'a str, password: &'a str },
    ApiKey { key: &'a str },
}

/// The transport strategy a credential converts to: an HTTP Basic pair, or
/// one bearer-token `Authorization` header value.
pub enum AuthHeader<'a> {
    Basic { username: &'a str, password: &'a str },
    Bearer { value: String },
}

/// Converts a credential to its transport strategy: Basic stays a pair for
/// the transport's own Basic encoding; an API key becomes `Bearer <key>`.
pub fn auth_strategy<'a>(auth: Auth<'a>) -> (r: AuthHeader<'a>)
    ensures
        match auth {
            Auth::Basic { username, password } => r matches AuthHeader::Basic {
                username: u2,
                password: p2,
            } && u2@ == username@ && p2@ == password@,
            Auth::ApiKey { key } => r matches AuthHeader::Bearer { value } && value@ == "Bearer "@
                + key@,
        },
{
    match auth {
        Auth::Basic { username, password } => AuthHeader::Basic { username, password },
        Auth::ApiKey { key } => AuthHeader::Bearer {
            value: String::from_str("Bearer ").concat(key),
        },
    }
}

/// A normalized base URL: scheme and authority only, ending in `/`.
#[derive(Debug)]
pub struct BaseUrl {
    pub origin: String,
}

impl BaseUrl {
    /// A well-formed origin is non-empty and ends in `/`, so that API paths
    /// concatenate onto it.
    pub open spec fn well_formed(&self) -> bool {
        self.origin@.len() > 0 && self.origin@.last() == '/'
    }
}

/// What normalizing a host text yields: parsing it as a URL, then resetting
/// the path to `/` and discarding query and fragment.  A function of the
/// text alone; nothing when the text is no valid URL.
pub uninterp spec fn origin_of(s: Seq<char>) -> Option<Seq<char>>;

/// Relies on `url::Url`: `parse`, then `set_path("/")`, `set_query(None)`,
/// `set_fragment(None)`, then the serialization.  The result depends on the
/// text alone; for an `http`/`https` text the serialization runs
/// scheme, authority, then the `/` path, so it is non-empty and ends in `/`.
#[verifier::external_body]
fn normalize_origin(s: &str) -> (r: Option<String>)
    ensures
        match origin_of(s@) {
            Some(o) => r matches Some(x) && x@ == o,
            None => r is None,
        },
        (has_prefix(s@, "http://"@) || has_prefix(s@, "https://"@)) ==> (match r {
            Some(x) => x@.len() > 0 && x@.last() == '/',
            None => true,
        }),
{
    match url::Url::parse(s) {
        Ok(mut u) => {
            u.set_path("/");
            u.set_query(None);
            u.set_fragment(None);
            Some(u.to_string())
        },
        Err(_) => None,
    }
}

/// The host text handed to URL parsing: trimmed, given an `https` scheme
/// when it names none, one trailing slash removed.
pub open spec fn preprocessed_host(host: Seq<char>) -> Seq<char> {
    let t = trim_of(host);
    let w = if has_prefix(t, "http://"@) || has_prefix(t, "https://"@) {
        t
    } else {
        "https://"@ + t
    };
    if w.len() > 0 && w.last() == '/' {
        w.drop_last()
    } else {
        w
    }
}

/// Normalizes the configured host into the base URL all API paths join
/// against: scheme defaulted to `https`, trailing slash dropped, path reset
/// to root, query and fragment discarded.
pub fn parse_base_url(host: &str) -> (r: Result<BaseUrl, Error>)
    ensures
        match origin_of(preprocessed_host(host@)) {
            Some(o) => r matches Ok(b) && b.origin@ == o && ((has_prefix(
                preprocessed_host(host@),
                "http://"@,
            ) || has_prefix(preprocessed_host(host@), "https://"@)) ==> b.well_formed()),
            None => r matches Err(e) && e matches Error::InvalidHost,
        },
{
    let t = trim_str(host);
    let w: String = if str_has_prefix(t, "http://") || str_has_prefix(t, "https://") {
        String::from_str(t)
    } else {
        String::from_str("https://").concat(t)
    };
    let n = w.as_str().unicode_len();
    let s: String = if n > 0 && w.as_str().get_char(n - 1) == '/' {
        let stripped = w.as_str().substring_char(0, n - 1);
        proof {
            assert(w@.subrange(0, n - 1) =~= w@.drop_last());
        }
        String::from_str(stripped)
    } else {
        String::from_str(w.as_str())
    };
    match normalize_origin(s.as_str()) {
        Some(o) => Ok(BaseUrl { origin: o }),
        None => Err(Error::InvalidHost),
    }
}

/// An HTTP method of the API client.
#[derive(Clone, Copy, PartialEq, Eq, Structural, Debug)]
pub enum HttpMethod {
    Post,
    Get,
}

/// One fully built API request: where to send what.  The transport adds the
/// authentication strategy and an `Accept: application/json` header.
#[derive(Debug)]
pub struct ApiRequest {
    pub method: HttpMethod,
    pub url: String,
    pub body: Option<String>,
}

/// `true` or `false`.
pub open spec fn bool_text(b: bool) -> Seq<char> {
    if b {
        "true"@
    } else {
        "false"@
    }
}

/// The JSON member carrying the secret: exactly one of `passphrase` and
/// `key` is written; the other is omitted entirely.
pub open spec fn secret_member_text(secret: UnlockSecret<'_>) -> Seq<char> {
    match secret {
        UnlockSecret::Passphrase(p) => ",\"passphrase\":"@ + json_str_text(p@),
        UnlockSecret::Key(k) => ",\"key\":"@ + json_str_text(k@),
    }
}

/// The unlock call's exact body text.
pub open spec fn unlock_body_text(
    dataset: Seq<char>,
    secret: UnlockSecret<'_>,
    options: UnlockOptions,
) -> Seq<char> {
    "{\"id\":"@ + json_str_text(dataset) + ",\"unlock_options\":{\"recursive\":"@ + bool_text(
        options.recursive,
    ) + ",\"force\":"@ + bool_text(options.force) + ",\"toggle_attachments\":"@ + bool_text(
        options.toggle_attachments,
    ) + ",\"key_file\":false,\"datasets\":[{\"name\":"@ + json_str_text(dataset)
        + secret_member_text(secret) + "}]}}"@
}

/// The part of the unlock body before the secret member.
pub open spec fn unlock_body_prefix(dataset: Seq<char>, options: UnlockOptions) -> Seq<char> {
    "{\"id\":"@ + json_str_text(dataset) + ",\"unlock_options\":{\"recursive\":"@ + bool_text(
        options.recursive,
    ) + ",\"force\":"@ + bool_text(options.force) + ",\"toggle_attachments\":"@ + bool_text(
        options.toggle_attachments,
    ) + ",\"key_file\":false,\"datasets\":[{\"name\":"@ + json_str_text(dataset)
}

/// The configured secret contributes exactly its own member to the body:
/// with a passphrase the dataset object carries a `passphrase` member and no
/// `key` member is written, and with a key the other way round — the bodies
/// of the two modes differ in nothing else.
pub proof fn lemma_unlock_body_single_secret_member(
    dataset: Seq<char>,
    secret: UnlockSecret<'_>,
    options: UnlockOptions,
)
    ensures
        unlock_body_text(dataset, secret, options) == unlock_body_prefix(dataset, options)
            + secret_member_text(secret) + "}]}}"@,
{
    assert(unlock_body_text(dataset, secret, options) =~= unlock_body_prefix(dataset, options)
        + secret_member_text(secret) + "}]}}"@);
}

/// Writes `true` or `false`.
fn bool_str(b: bool) -> (r: &'static str)
    ensures
        r@ == bool_text(b),
{
    if b {
        "true"
    } else {
        "false"
    }
}

/// Builds the unlock request: a POST whose body names the dataset once as
/// the id and once in the per-dataset list, with exactly one of
/// `passphrase`/`key` present as the configured mode says.
pub fn build_unlock_request(
    base: &BaseUrl,
    dataset: &str,
    secret: UnlockSecret<'_>,
    options: UnlockOptions,
) -> (r: ApiRequest)
    ensures
        r.method == HttpMethod::Post,
        r.url@ == base.origin@ + "api/v2.0/pool/dataset/unlock"@,
        r.body matches Some(b) && b@ == unlock_body_text(dataset@, secret, options),
{
    let url = base.origin.clone().concat("api/v2.0/pool/dataset/unlock");
    let ds = json_str_exec(dataset);
    let mut body = String::from_str("{\"id\":").concat(ds.as_str()).concat(
        ",\"unlock_options\":{\"recursive\":",
    ).concat(bool_str(options.recursive)).concat(",\"force\":").concat(
        bool_str(options.force),
    ).concat(",\"toggle_attachments\":").concat(bool_str(options.toggle_attachments)).concat(
        ",\"key_file\":false,\"datasets\":[{\"name\":",
    ).concat(ds.as_str());
    body = match secret {
        UnlockSecret::Passphrase(p) => body.concat(",\"passphrase\":").concat(
            json_str_exec(p).as_str(),
        ),
        UnlockSecret::Key(k) => body.concat(",\"key\":").concat(json_str_exec(k).as_str()),
    };
    body = body.concat("}]}}");
    ApiRequest { method: HttpMethod::Post, url, body: Some(body) }
}

/// The lock call's exact body text.
pub open spec fn lock_body_text(dataset: Seq<char>, force_umount: bool) -> Seq<char> {
    "{\"id\":"@ + json_str_text(dataset) + ",\"lock_options\":{\"force_umount\":"@ + bool_text(
        force_umount,
    ) + "}}"@
}

/// Builds the lock request.
pub fn build_lock_request(base: &BaseUrl, dataset: &str, force_umount: bool) -> (r: ApiRequest)
    ensures
        r.method == HttpMethod::Post,
        r.url@ == base.origin@ + "api/v2.0/pool/dataset/lock"@,
        r.body matches Some(b) && b@ == lock_body_text(dataset@, force_umount),
{
    let url = base.origin.clone().concat("api/v2.0/pool/dataset/lock");
    let body = String::from_str("{\"id\":").concat(json_str_exec(dataset).as_str()).concat(
        ",\"lock_options\":{\"force_umount\":",
    ).concat(bool_str(force_umount)).concat("}}");
    ApiRequest { method: HttpMethod::Post, url, body: Some(body) }
}

/// The POST job query's exact filter body.
pub open spec fn job_filter_text(job_id: int) -> Seq<char> {
    "[[[\"id\",\"=\","@ + dec_str_int(job_id) + "]]]"@
}

/// Builds the POST form of the job-status query: a filter on the job id.
pub fn build_job_query_post(base: &BaseUrl, job_id: i64) -> (r: ApiRequest)
    ensures
        r.method == HttpMethod::Post,
        r.url@ == base.origin@ + "api/v2.0/core/get_jobs"@,
        r.body matches Some(b) && b@ == job_filter_text(job_id as int),
{
    let url = base.origin.clone().concat("api/v2.0/core/get_jobs");
    let body = String::from_str("[[[\"id\",\"=\",").concat(i64_to_dec(job_id).as_str()).concat(
        "]]]",
    );
    ApiRequest { method: HttpMethod::Post, url, body: Some(body) }
}

/// Builds the GET form of the job-status query: the job id as a query
/// parameter, no body.
pub fn build_job_query_get(base: &BaseUrl, job_id: i64) -> (r: ApiRequest)
    ensures
        r.method == HttpMethod::Get,
        r.url@ == base.origin@ + "api/v2.0/core/get_jobs?id="@ + dec_str_int(job_id as int),
        r.body is None,
{
    let url = base.origin.clone().concat("api/v2.0/core/get_jobs?id=").concat(
        i64_to_dec(job_id).as_str(),
    );
    ApiRequest { method: HttpMethod::Get, url, body: None }
}

} // verus!
