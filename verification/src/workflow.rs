//! The decisions of one unlock invocation: resolving the credential and the
//! unlock secret out of store entries, and reading an unlock result into the
//! outcome the caller acts on.

use vstd::prelude::*;
use crate::config::{AuthMethod, UnlockMode};
use crate::entry::{ensure_non_empty, entry_field_of, required_field, SecretEntry};
use crate::errors::Error;
use crate::responses::UnlockResult;
use crate::text::trim_of;
use crate::truenas::{Auth, UnlockSecret};

verus! {

/// A resolved credential, held until the invocation ends.
#[derive(Debug)]
pub enum Credential {
    Basic { username: String, password: String },
    ApiKey { key: String },
}

impl Credential {
    /// The borrowed form the request layer uses; the same credential serves
    /// every call of one invocation.
    pub fn as_auth<'a>(&'a self) -> (r: Auth<'a>)
        ensures
            match *self {
                Credential::Basic { username: u, password: p } => r matches Auth::Basic {
                    username: u2,
                    password: p2,
                } && u2@ == u@ && p2@ == p@,
                Credential::ApiKey { key: k } => r matches Auth::ApiKey { key: k2 } && k2@ == k@,
            },
    {
        match self {
            Credential::Basic { username, password } => Auth::Basic {
                username: username.as_str(),
                password: password.as_str(),
            },
            Credential::ApiKey { key } => Auth::ApiKey { key: key.as_str() },
        }
    }
}

/// What resolving a Basic credential yields on given field values: the
/// fields must resolve and be non-empty after trimming, in field order.
pub open spec fn basic_credential_of(
    u: Option<Seq<char>>,
    p: Option<Seq<char>>,
    username_field: Seq<char>,
    password_field: Seq<char>,
    entry_label: Seq<char>,
    r: Result<Credential, Error>,
) -> bool {
    match u {
        None => r matches Err(e) && e matches Error::MissingField { field, entry } && field@
            == username_field && entry@ == entry_label,
        Some(uv) => match p {
            None => r matches Err(e) && e matches Error::MissingField { field, entry } && field@
                == password_field && entry@ == entry_label,
            Some(pv) => if trim_of(uv).len() == 0 {
                r matches Err(e) && e matches Error::EmptySecret { label } && label@
                    == "NAS username"@
            } else if trim_of(pv).len() == 0 {
                r matches Err(e) && e matches Error::EmptySecret { label } && label@
                    == "NAS password"@
            } else {
                r matches Ok(c) && (c matches Credential::Basic { username, password } && username@
                    == uv && password@ == pv)
            },
        },
    }
}

/// What resolving an API-key credential yields: the password field holds
/// the key, which must be non-empty after trimming.
pub open spec fn api_key_credential_of(
    k: Option<Seq<char>>,
    password_field: Seq<char>,
    entry_label: Seq<char>,
    r: Result<Credential, Error>,
) -> bool {
    match k {
        None => r matches Err(e) && e matches Error::MissingField { field, entry } && field@
            == password_field && entry@ == entry_label,
        Some(kv) => if trim_of(kv).len() == 0 {
            r matches Err(e) && e matches Error::EmptySecret { label } && label@ == "API key"@
        } else {
            r matches Ok(c) && (c matches Credential::ApiKey { key } && key@ == kv)
        },
    }
}

/// Resolves the configured credential out of the authentication entry:
/// Basic needs the username and password fields, an API key lives in the
/// password field; every secret must be non-empty after trimming.
pub fn resolve_credential(
    entry: &SecretEntry,
    method: AuthMethod,
    username_field: &str,
    password_field: &str,
    entry_label: &str,
) -> (r: Result<Credential, Error>)
    ensures
        method == AuthMethod::Basic ==> basic_credential_of(
            entry_field_of(*entry, username_field@),
            entry_field_of(*entry, password_field@),
            username_field@,
            password_field@,
            entry_label@,
            r,
        ),
        method == AuthMethod::ApiKey ==> api_key_credential_of(
            entry_field_of(*entry, password_field@),
            password_field@,
            entry_label@,
            r,
        ),
{
    match method {
        AuthMethod::Basic => {
            let username = match required_field(entry, username_field, entry_label) {
                Ok(v) => v,
                Err(e) => {
                    return Err(e);
                },
            };
            let password = match required_field(entry, password_field, entry_label) {
                Ok(v) => v,
                Err(e) => {
                    return Err(e);
                },
            };
            match ensure_non_empty(username.as_str(), "NAS username") {
                Ok(()) => {},
                Err(e) => {
                    return Err(e);
                },
            }
            match ensure_non_empty(password.as_str(), "NAS password") {
                Ok(()) => {},
                Err(e) => {
                    return Err(e);
                },
            }
            Ok(Credential::Basic { username, password })
        },
        AuthMethod::ApiKey => {
            let key = match required_field(entry, password_field, entry_label) {
                Ok(v) => v,
                Err(e) => {
                    return Err(e);
                },
            };
            match ensure_non_empty(key.as_str(), "API key") {
                Ok(()) => {},
                Err(e) => {
                    return Err(e);
                },
            }
            Ok(Credential::ApiKey { key })
        },
    }
}

/// What resolving the unlock secret yields: the configured field, non-empty
/// after trimming.
pub open spec fn unlock_secret_of(
    v: Option<Seq<char>>,
    unlock_field: Seq<char>,
    entry_label: Seq<char>,
    r: Result<String, Error>,
) -> bool {
    match v {
        None => r matches Err(e) && e matches Error::MissingField { field, entry } && field@
            == unlock_field && entry@ == entry_label,
        Some(sv) => if trim_of(sv).len() == 0 {
            r matches Err(e) && e matches Error::EmptySecret { label } && label@
                == "unlock secret"@
        } else {
            r matches Ok(s) && s@ == sv
        },
    }
}

/// Resolves the unlock secret out of the volume's entry.
pub fn resolve_unlock_secret(entry: &SecretEntry, unlock_field: &str, entry_label: &str) -> (r:
    Result<String, Error>)
    ensures
        unlock_secret_of(entry_field_of(*entry, unlock_field@), unlock_field@, entry_label@, r),
{
    let value = match required_field(entry, unlock_field, entry_label) {
        Ok(v) => v,
        Err(e) => {
            return Err(e);
        },
    };
    match ensure_non_empty(value.as_str(), "unlock secret") {
        Ok(()) => Ok(value),
        Err(e) => Err(e),
    }
}

/// Wraps the resolved secret in the configured unlock mode.
pub fn make_unlock_secret<'a>(mode: UnlockMode, value: &'a str) -> (r: UnlockSecret<'a>)
    ensures
        mode == UnlockMode::Passphrase ==> (r matches UnlockSecret::Passphrase(p) && p@ == value@),
        mode == UnlockMode::Key ==> (r matches UnlockSecret::Key(k) && k@ == value@),
{
    match mode {
        UnlockMode::Passphrase => UnlockSecret::Passphrase(value),
        UnlockMode::Key => UnlockSecret::Key(value),
    }
}

/// What the caller does after a successful unlock call.
#[derive(Debug)]
pub enum UnlockOutcome {
    /// Per-dataset failures came back: the operation failed as a whole.
    Failed { failures: Vec<(String, String)> },
    /// A job id came back: track it to completion.
    Track { job_id: i64 },
    /// Names of already-unlocked datasets came back.
    Unlocked { names: Vec<String> },
    /// Only a free-text message came back.
    Info { message: String },
    /// Nothing came back: the request was accepted.
    Accepted,
}

/// Reads an unlock result into the outcome: any reported failure defeats
/// the operation, even beside partial successes; otherwise a job id is
/// tracked; otherwise unlocked names, a message, or bare acceptance.
pub fn unlock_outcome(result: UnlockResult) -> (r: UnlockOutcome)
    ensures
        ({
            let v = result@;
            if v.failed.len() > 0 {
                r matches UnlockOutcome::Failed { failures } && failures@.map_values(
                    |p: (String, String)| (p.0@, p.1@),
                ) == v.failed
            } else if v.job_id is Some {
                r matches UnlockOutcome::Track { job_id } && job_id == v.job_id->0
            } else if v.unlocked.len() > 0 {
                r matches UnlockOutcome::Unlocked { names } && names@.map_values(
                    |s: String| s@,
                ) == v.unlocked
            } else if v.message is Some {
                r matches UnlockOutcome::Info { message } && message@ == v.message->0
            } else {
                r matches UnlockOutcome::Accepted
            }
        }),
{
    if result.failed.len() > 0 {
        UnlockOutcome::Failed { failures: result.failed }
    } else if let Some(job_id) = result.job_id {
        UnlockOutcome::Track { job_id }
    } else if result.unlocked.len() > 0 {
        UnlockOutcome::Unlocked { names: result.unlocked }
    } else if let Some(message) = result.message {
        UnlockOutcome::Info { message }
    } else {
        UnlockOutcome::Accepted
    }
}

} // verus!
